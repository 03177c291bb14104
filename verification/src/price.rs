//! The price oracle: a token's ETH-denominated price, derived from the
//! single most liquid whitelisted pool that pairs it with a trusted
//! counterpart. The wrapped native token is worth exactly one; stablecoins
//! are the reciprocal of the ETH/USD rate; every other token is priced
//! through the best-evidenced pool, with low-liquidity pools rejected.

use vstd::prelude::*;
use crate::constants::is_whitelisted_spec;
use crate::dec::Dec;
use crate::keys::{kv_entity, kv_two_addr, Field, Key, KeyV, Table};
use crate::pb::{Erc20Token, Pool};
use crate::store::{get_at_spec, get_last_spec, store_values_wf, EntryV, Store};

verus! {

/// The wrapped native token (deterministic deployment, both chains).
pub const WETH_ADDRESS: &'static str = "0xe91d02e66a9152fee1bc79c1830121f6507a4f6d";

/// The USD anchor used for the ETH/USD rate.
pub const USDC_ADDRESS: &'static str = "0x46a906fca4487c87f0d89d2d0824ec57bdaa947d";

pub const STABLE_COIN_USDC: &'static str = "0x46a906fca4487c87f0d89d2d0824ec57bdaa947d";

pub const STABLE_COIN_USDT: &'static str = "0xbacdbe38df8421d0aa90262beb1c20d32a634fe7";

pub const STABLE_COIN_DAI: &'static str = "0x0c156e2f45a812ad743760a88d73fb22879bc299";

pub open spec fn weth_spec() -> Seq<char> {
    WETH_ADDRESS@
}

pub open spec fn usdc_spec() -> Seq<char> {
    USDC_ADDRESS@
}

/// The static stablecoin set.
pub open spec fn is_stable_spec(s: Seq<char>) -> bool {
    ||| s == STABLE_COIN_USDC@
    ||| s == STABLE_COIN_USDT@
    ||| s == STABLE_COIN_DAI@
}

/// Whether the address is one of the pegged stablecoins.
pub fn is_stable_coin(address: &str) -> (r: bool)
    ensures
        r == is_stable_spec(address@),
{
    let r1 = crate::text::str_eq(address, STABLE_COIN_USDC);
    let r2 = crate::text::str_eq(address, STABLE_COIN_USDT);
    let r3 = crate::text::str_eq(address, STABLE_COIN_DAI);
    r1 || r2 || r3
}

/// The one value.
pub open spec fn dec_one() -> Dec {
    Dec { num: 1, den: 1 }
}

/// The zero value.
pub open spec fn dec_zero() -> Dec {
    Dec { num: 0, den: 1 }
}

/// The minimum ETH-equivalent liquidity a pool must hold to serve as
/// price evidence when its counterpart token is not whitelisted.
pub open spec fn min_eth_locked() -> Dec {
    Dec { num: 52, den: 1 }
}

/// The reciprocal of a well-formed value (zero for zero): always
/// representable, because the components merely trade places.
fn recip(p: Dec) -> (r: Dec)
    requires
        p.wf(),
    ensures
        Some(r) == dec_one().spec_div(p),
        r.wf(),
{
    match Dec::one().div(p) {
        Some(v) => {
            proof {
                crate::dec::lemma_div_frac(dec_one(), p);
            }
            v
        },
        None => {
            proof {
                if p.num > 0 {
                    crate::dec::lemma_reduce_in_range(1 * p.den as int, 1 * p.num as int);
                } else if p.num < 0 {
                    crate::dec::lemma_reduce_in_range(
                        -(1 * p.den as int),
                        1 * -(p.num as int),
                    );
                }
                assert(false);
            }
            Dec::zero()
        },
    }
}

/// Model of [`get_eth_price_in_usd`]: the price stored for the WETH/USDC
/// pair; else the reciprocal of the reverse pair; else zero.
pub open spec fn eth_usd_model(prices: Seq<EntryV<Dec>>, ord: u64) -> Dec {
    match get_at_spec(prices, kv_two_addr(Table::Pair, weth_spec(), usdc_spec(), Field::NoField), ord) {
        Some(p) => p,
        None => match get_at_spec(
            prices,
            kv_two_addr(Table::Pair, usdc_spec(), weth_spec(), Field::NoField),
            ord,
        ) {
            None => dec_zero(),
            Some(p) => dec_one().spec_div(p).unwrap(),
        },
    }
}

/// The ETH price in USD as of `ordinal`, from the WETH/USDC pair price,
/// falling back to the reciprocal of the reverse pair, and zero when
/// neither is known.
pub fn get_eth_price_in_usd(prices_store: &Store<Dec>, ordinal: u64) -> (r: Dec)
    requires
        store_values_wf(prices_store@),
    ensures
        r == eth_usd_model(prices_store@, ordinal),
        r.wf(),
{
    let key = Key::two_addr(
        Table::Pair,
        WETH_ADDRESS.to_owned(),
        USDC_ADDRESS.to_owned(),
        Field::NoField,
    );
    proof {
        crate::store::lemma_last_match_at(prices_store@, key@, ordinal);
    }
    match prices_store.get_at(&key, ordinal) {
        Some(price) => {
            proof {
                let j = crate::store::last_match_at(prices_store@, key@, ordinal);
                assert(store_values_wf(prices_store@));
                assert(prices_store@[j].value.wf());
            }
            *price
        },
        None => {
            let reverse_key = Key::two_addr(
                Table::Pair,
                USDC_ADDRESS.to_owned(),
                WETH_ADDRESS.to_owned(),
                Field::NoField,
            );
            proof {
                crate::store::lemma_last_match_at(prices_store@, reverse_key@, ordinal);
            }
            match prices_store.get_at(&reverse_key, ordinal) {
                None => Dec::zero(),
                Some(price) => {
                    proof {
                        let j = crate::store::last_match_at(
                            prices_store@,
                            reverse_key@,
                            ordinal,
                        );
                        assert(prices_store@[j].value.wf());
                    }
                    recip(*price)
                },
            }
        },
    }
}

/// Model of [`div_pow2`]: `k` exact halvings, `None` as soon as one
/// result leaves the representable range.
pub open spec fn spec_div_pow2(d: Dec, k: nat) -> Option<Dec>
    decreases k,
{
    if k == 0 {
        Some(d)
    } else {
        match d.spec_div(Dec { num: 2, den: 1 }) {
            None => None,
            Some(d2) => spec_div_pow2(d2, (k - 1) as nat),
        }
    }
}

/// Divides by `2^k`, exactly.
fn div_pow2(d: Dec, k: u64) -> (r: Option<Dec>)
    requires
        d.wf(),
    ensures
        r == spec_div_pow2(d, k as nat),
        r is Some ==> r.unwrap().wf(),
{
    let two = Dec::from_int(2);
    let mut cur = d;
    let mut i: u64 = 0;
    while i < k
        invariant
            0 <= i <= k,
            two == (Dec { num: 2, den: 1 }),
            cur.wf(),
            spec_div_pow2(cur, (k - i) as nat) == spec_div_pow2(d, k as nat),
        decreases k - i,
    {
        match cur.div(two) {
            None => {
                proof {
                    assert(spec_div_pow2(cur, (k - i) as nat) is None);
                }
                return None;
            },
            Some(next) => {
                proof {
                    crate::dec::lemma_div_frac(cur, two);
                    assert(spec_div_pow2(next, (k - i - 1) as nat) == spec_div_pow2(
                        cur,
                        (k - i) as nat,
                    ));
                }
                cur = next;
                i = i + 1;
            },
        }
    }
    Some(cur)
}

/// The scaling factor of the historic decimal-exponent helper, as a spec
/// value.
pub open spec fn legacy_factor(decimals: u64) -> Option<Dec> {
    if crate::dec::pow10_spec(crate::math::legacy_exponent(decimals))
        < crate::dec::COMPONENT_BOUND {
        Some(
            Dec {
                num: crate::dec::pow10_spec(crate::math::legacy_exponent(decimals)) as i128,
                den: 1,
            },
        )
    } else {
        None
    }
}

/// Model of [`sqrt_price_x96_to_token_prices`]: square the fixed-point
/// root, scale down by `2^192`, rescale by the tokens' historic decimal
/// factors; the token0 price is the guarded reciprocal. `None` when any
/// exact intermediate leaves the representable range.
pub open spec fn sqrt_prices_spec(sqrt_price: Dec, d0: u64, d1: u64) -> Option<(Dec, Dec)> {
    match sqrt_price.spec_mul(sqrt_price) {
        None => None,
        Some(squared) => match spec_div_pow2(squared, 192) {
            None => None,
            Some(scaled) => match legacy_factor(d0) {
                None => None,
                Some(e0) => match legacy_factor(d1) {
                    None => None,
                    Some(e1) => match scaled.spec_mul(e0) {
                        None => None,
                        Some(up) => match up.spec_div(e1) {
                            None => None,
                            Some(price1) => match (Dec { num: 1, den: 1 }).spec_div(price1) {
                                None => None,
                                Some(price0) => Some((price0, price1)),
                            },
                        },
                    },
                },
            },
        },
    }
}

/// The token prices encoded by a fixed-point square-root price with a
/// 96-bit fractional part, at the two tokens' decimal scales. Kept for
/// schema compatibility: the V2 pipeline derives prices from reserves
/// instead, and only inputs whose exact value fits the representable
/// range yield a result — the `2^192` scale cannot cancel against a
/// numerator below the component bound, so within this range every
/// well-formed input reports its value as unrepresentable.
pub fn sqrt_price_x96_to_token_prices(
    sqrt_price: Dec,
    token_0: &Erc20Token,
    token_1: &Erc20Token,
) -> (r: Option<(Dec, Dec)>)
    requires
        sqrt_price.wf(),
    ensures
        r == sqrt_prices_spec(sqrt_price, token_0.decimals, token_1.decimals),
        r is Some ==> r.unwrap().0.wf() && r.unwrap().1.wf(),
{
    let squared = match sqrt_price.mul(sqrt_price) {
        None => {
            return None;
        },
        Some(v) => {
            proof {
                crate::dec::lemma_mul_frac(sqrt_price, sqrt_price);
            }
            v
        },
    };
    let scaled = match div_pow2(squared, 192) {
        None => {
            return None;
        },
        Some(v) => v,
    };
    let e0 = match crate::math::exponent_to_big_decimal(token_0.decimals) {
        None => {
            proof {
                assert(legacy_factor(token_0.decimals) is None);
            }
            return None;
        },
        Some(v) => {
            proof {
                assert(legacy_factor(token_0.decimals) == Some(v));
            }
            v
        },
    };
    let e1 = match crate::math::exponent_to_big_decimal(token_1.decimals) {
        None => {
            proof {
                assert(legacy_factor(token_1.decimals) is None);
            }
            return None;
        },
        Some(v) => {
            proof {
                assert(legacy_factor(token_1.decimals) == Some(v));
            }
            v
        },
    };
    let up = match scaled.mul(e0) {
        None => {
            return None;
        },
        Some(v) => {
            proof {
                crate::dec::lemma_mul_frac(scaled, e0);
            }
            v
        },
    };
    let price1 = match up.div(e1) {
        None => {
            return None;
        },
        Some(v) => {
            proof {
                crate::dec::lemma_div_frac(up, e1);
            }
            v
        },
    };
    let price0 = match Dec::one().div(price1) {
        None => {
            return None;
        },
        Some(v) => {
            proof {
                crate::dec::lemma_div_frac(dec_one(), price1);
            }
            v
        },
    };
    Some((price0, price1))
}

/// One candidate pool side, fully resolved: the counterpart's reserve and
/// price turned into the ETH-locked evidence, then the accept test. The
/// state is (largest ETH locked so far, price so far); any missing or
/// unrepresentable figure leaves the state unchanged (the skip policy).
pub open spec fn consider_side(
    liq: Seq<EntryV<u128>>,
    native: Seq<EntryV<Dec>>,
    prices: Seq<EntryV<Dec>>,
    ord: u64,
    pool_addr: Seq<char>,
    other_addr: Seq<char>,
    price_field: Field,
    state: (Dec, Dec),
) -> (Dec, Dec) {
    let native_amt = match get_at_spec(
        native,
        KeyV {
            table: Table::Pool,
            bucket: 0,
            addr: pool_addr,
            addr2: other_addr,
            field: Field::Native,
        },
        ord,
    ) {
        Some(v) => v,
        None => dec_zero(),
    };
    let resolved: Option<(Dec, Dec)> = if other_addr == weth_spec() {
        Some((native_amt, dec_one()))
    } else {
        match get_at_spec(
            liq,
            kv_two_addr(Table::Pair, weth_spec(), other_addr, Field::NoField),
            ord,
        ) {
            None => None,
            Some(l) => if l == 0 {
                None
            } else {
                match get_at_spec(
                    prices,
                    kv_two_addr(Table::Pair, weth_spec(), other_addr, Field::NoField),
                    ord,
                ) {
                    None => None,
                    Some(cp) => match native_amt.spec_mul(cp) {
                        Some(locked) => Some((locked, cp)),
                        None => None,
                    },
                }
            },
        }
    };
    match resolved {
        None => state,
        Some((locked, cp)) => if state.0.vlt(locked) && (min_eth_locked().vlt(locked)
            || is_whitelisted_spec(other_addr)) {
            match get_at_spec(
                prices,
                KeyV {
                    table: Table::Pool,
                    bucket: 0,
                    addr: pool_addr,
                    addr2: other_addr,
                    field: price_field,
                },
                ord,
            ) {
                None => state,
                Some(local) => match local.spec_mul(cp) {
                    Some(np) => (locked, np),
                    None => state,
                },
            }
        } else {
            state
        },
    }
}

/// The scan over the token's whitelisted pools, from position `i`.
pub open spec fn scan_pools(
    pools: Seq<EntryV<Pool>>,
    liq: Seq<EntryV<u128>>,
    native: Seq<EntryV<Dec>>,
    prices: Seq<EntryV<Dec>>,
    ord: u64,
    token: Seq<char>,
    wl: Seq<String>,
    i: int,
    state: (Dec, Dec),
) -> (Dec, Dec)
    decreases wl.len() - i,
{
    if i < 0 || i >= wl.len() {
        state
    } else {
        let p = wl[i]@;
        let next = match get_last_spec(pools, kv_entity(Table::Pair, p)) {
            None => state,
            Some(pool) => if pool.token0 is Some && pool.token1 is Some {
                let liquidity = match get_at_spec(liq, kv_entity(Table::Pool, p), ord) {
                    Some(l) => l,
                    None => 0,
                };
                if liquidity > 0 {
                    let s1 = if pool.token0.unwrap().address@ == token {
                        consider_side(
                            liq,
                            native,
                            prices,
                            ord,
                            p,
                            pool.token1.unwrap().address@,
                            Field::Token1,
                            state,
                        )
                    } else {
                        state
                    };
                    if pool.token1.unwrap().address@ == token {
                        consider_side(
                            liq,
                            native,
                            prices,
                            ord,
                            p,
                            pool.token0.unwrap().address@,
                            Field::Token0,
                            s1,
                        )
                    } else {
                        s1
                    }
                } else {
                    state
                }
            } else {
                state
            },
        };
        scan_pools(pools, liq, native, prices, ord, token, wl, i + 1, next)
    }
}

/// One candidate pool side, executed; see [`consider_side`].
fn consider_side_exec(
    liq: &Store<u128>,
    native: &Store<Dec>,
    prices: &Store<Dec>,
    ord: u64,
    pool_addr: &String,
    other_addr: &String,
    price_field: Field,
    state: (Dec, Dec),
) -> (r: (Dec, Dec))
    requires
        store_values_wf(native@),
        store_values_wf(prices@),
        state.0.wf(),
        state.1.wf(),
    ensures
        r == consider_side(liq@, native@, prices@, ord, pool_addr@, other_addr@, price_field, state),
        r.0.wf() && r.1.wf(),
{
    let native_key = Key::two_addr(
        Table::Pool,
        pool_addr.clone(),
        other_addr.clone(),
        Field::Native,
    );
    let native_amt: Dec = match native.get_at(&native_key, ord) {
        Some(v) => {
            proof {
                crate::store::lemma_get_at_wf(native@, native_key@, ord);
            }
            *v
        },
        None => Dec::zero(),
    };
    let is_weth = crate::text::str_eq(other_addr.as_str(), WETH_ADDRESS);
    let mut locked: Dec = native_amt;
    let mut cp: Dec = Dec::one();
    if !is_weth {
        let pair_key = Key::two_addr(
            Table::Pair,
            WETH_ADDRESS.to_owned(),
            other_addr.clone(),
            Field::NoField,
        );
        let l: u128 = match liq.get_at(&pair_key, ord) {
            None => {
                return state;
            },
            Some(l) => *l,
        };
        if l == 0 {
            return state;
        }
        let cpp: Dec = match prices.get_at(&pair_key, ord) {
            None => {
                return state;
            },
            Some(p) => {
                proof {
                    crate::store::lemma_get_at_wf(prices@, pair_key@, ord);
                }
                *p
            },
        };
        match native_amt.mul(cpp) {
            None => {
                return state;
            },
            Some(lk) => {
                proof {
                    crate::dec::lemma_mul_frac(native_amt, cpp);
                }
                locked = lk;
                cp = cpp;
            },
        }
    }
    let threshold = Dec::from_int(52);
    let accept = state.0.lt(&locked) && (threshold.lt(&locked) || crate::constants::is_whitelisted_token(
        other_addr.as_str(),
    ));
    if accept {
        let local_key = Key::two_addr(
            Table::Pool,
            pool_addr.clone(),
            other_addr.clone(),
            price_field,
        );
        match prices.get_at(&local_key, ord) {
            None => state,
            Some(local) => {
                proof {
                    crate::store::lemma_get_at_wf(prices@, local_key@, ord);
                }
                match local.mul(cp) {
                    Some(np) => {
                        proof {
                            crate::dec::lemma_mul_frac(*local, cp);
                        }
                        (locked, np)
                    },
                    None => state,
                }
            },
        }
    } else {
        state
    }
}

/// Model of [`find_eth_per_token`].
pub open spec fn eth_per_token_model(
    pools: Seq<EntryV<Pool>>,
    liq: Seq<EntryV<u128>>,
    wl_store: Seq<EntryV<Vec<String>>>,
    native: Seq<EntryV<Dec>>,
    prices: Seq<EntryV<Dec>>,
    ord: u64,
    token: Seq<char>,
) -> Dec {
    if token == weth_spec() {
        dec_one()
    } else if is_stable_spec(token) {
        dec_one().spec_div(eth_usd_model(prices, ord)).unwrap()
    } else {
        match get_last_spec(wl_store, kv_entity(Table::Token, token)) {
            None => dec_zero(),
            Some(wl) => scan_pools(
                pools,
                liq,
                native,
                prices,
                ord,
                token,
                wl@,
                0,
                (dec_zero(), dec_zero()),
            ).1,
        }
    }
}

/// A token's price in ETH as of `ord`: one for the wrapped native token;
/// the reciprocal of the ETH/USD rate for a stablecoin; otherwise the
/// price through the most liquid qualifying whitelisted pool, zero when
/// none qualifies.
pub fn find_eth_per_token(
    ord: u64,
    token_address: &String,
    pools_store: &Store<Pool>,
    pool_liquidities_store: &Store<u128>,
    tokens_whitelist_pools_store: &Store<Vec<String>>,
    total_native_amounts_store: &Store<Dec>,
    prices_store: &Store<Dec>,
) -> (r: Dec)
    requires
        store_values_wf(total_native_amounts_store@),
        store_values_wf(prices_store@),
    ensures
        r == eth_per_token_model(
            pools_store@,
            pool_liquidities_store@,
            tokens_whitelist_pools_store@,
            total_native_amounts_store@,
            prices_store@,
            ord,
            token_address@,
        ),
        r.wf(),
        token_address@ == weth_spec() ==> r == dec_one(),
{
    if crate::text::str_eq(token_address.as_str(), WETH_ADDRESS) {
        return Dec::one();
    }
    if is_stable_coin(token_address.as_str()) {
        let eth_price_usd = get_eth_price_in_usd(prices_store, ord);
        return recip(eth_price_usd);
    }
    let wl_key = Key::entity(Table::Token, token_address.clone());
    let wl_vec: &Vec<String> = match tokens_whitelist_pools_store.get_last(&wl_key) {
        None => {
            return Dec::zero();
        },
        Some(v) => v,
    };
    let ghost pv = pools_store@;
    let ghost lv = pool_liquidities_store@;
    let ghost nv = total_native_amounts_store@;
    let ghost prv = prices_store@;
    let ghost token = token_address@;
    let ghost wl = wl_vec@;
    let m = wl_vec.len();
    let mut state: (Dec, Dec) = (Dec::zero(), Dec::zero());
    let mut i: usize = 0;
    while i < m
        invariant
            0 <= i <= m,
            m == wl.len(),
            wl_vec@ == wl,
            pools_store@ == pv,
            pool_liquidities_store@ == lv,
            total_native_amounts_store@ == nv,
            prices_store@ == prv,
            token_address@ == token,
            store_values_wf(nv),
            store_values_wf(prv),
            state.0.wf() && state.1.wf(),
            scan_pools(pv, lv, nv, prv, ord, token, wl, i as int, state) == scan_pools(
                pv,
                lv,
                nv,
                prv,
                ord,
                token,
                wl,
                0,
                (dec_zero(), dec_zero()),
            ),
        decreases m - i,
    {
        let p: &String = &wl_vec[i];
        let pool_key = Key::entity(Table::Pair, p.clone());
        let mut next = state;
        match pools_store.get_last(&pool_key) {
            None => {},
            Some(pool) => {
                match (&pool.token0, &pool.token1) {
                    (Some(t0), Some(t1)) => {
                        let liq_key = Key::entity(Table::Pool, p.clone());
                        let liquidity: u128 = match pool_liquidities_store.get_at(&liq_key, ord) {
                            Some(l) => *l,
                            None => 0,
                        };
                        if liquidity > 0 {
                            if crate::text::str_eq(t0.address.as_str(), token_address.as_str()) {
                                next = consider_side_exec(
                                    pool_liquidities_store,
                                    total_native_amounts_store,
                                    prices_store,
                                    ord,
                                    p,
                                    &t1.address,
                                    Field::Token1,
                                    next,
                                );
                            }
                            if crate::text::str_eq(t1.address.as_str(), token_address.as_str()) {
                                next = consider_side_exec(
                                    pool_liquidities_store,
                                    total_native_amounts_store,
                                    prices_store,
                                    ord,
                                    p,
                                    &t0.address,
                                    Field::Token0,
                                    next,
                                );
                            }
                        }
                    },
                    _ => {},
                }
            },
        }
        proof {
            assert(scan_pools(pv, lv, nv, prv, ord, token, wl, i as int, state) == scan_pools(
                pv,
                lv,
                nv,
                prv,
                ord,
                token,
                wl,
                i + 1,
                next,
            ));
        }
        state = next;
        i = i + 1;
    }
    state.1
}

/// The wrapped native token's price is one, unconditionally, at every
/// ordinal and in every store state.
pub proof fn lemma_wrapped_native_price_is_one(
    pools: Seq<EntryV<Pool>>,
    liq: Seq<EntryV<u128>>,
    wl_store: Seq<EntryV<Vec<String>>>,
    native: Seq<EntryV<Dec>>,
    prices: Seq<EntryV<Dec>>,
    ord: u64,
)
    ensures
        eth_per_token_model(pools, liq, wl_store, native, prices, ord, weth_spec()) == dec_one(),
{
}

/// A stablecoin's ETH price is the reciprocal of the ETH/USD rate at the
/// same ordinal, whatever the pool, liquidity, whitelist and reserve
/// state: two store states that agree on prices give the same result.
pub proof fn lemma_stable_price_independent(
    pools1: Seq<EntryV<Pool>>,
    liq1: Seq<EntryV<u128>>,
    wl1: Seq<EntryV<Vec<String>>>,
    native1: Seq<EntryV<Dec>>,
    pools2: Seq<EntryV<Pool>>,
    liq2: Seq<EntryV<u128>>,
    wl2: Seq<EntryV<Vec<String>>>,
    native2: Seq<EntryV<Dec>>,
    prices: Seq<EntryV<Dec>>,
    ord: u64,
    token: Seq<char>,
)
    requires
        is_stable_spec(token),
    ensures
        eth_per_token_model(pools1, liq1, wl1, native1, prices, ord, token) == eth_per_token_model(
            pools2,
            liq2,
            wl2,
            native2,
            prices,
            ord,
            token,
        ),
        token != weth_spec() ==> eth_per_token_model(pools1, liq1, wl1, native1, prices, ord, token)
            == dec_one().spec_div(eth_usd_model(prices, ord)).unwrap(),
{
}

} // verus!
