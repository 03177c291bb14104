use dripswap_core::constants::{
    get_initial_block_for_chain, get_oracle_address_for_chain, get_receiver_chain_name,
    is_bridge_address, is_whitelisted_token, CCIP_SELECTOR_SCROLL_SEPOLIA, CCIP_SELECTOR_SEPOLIA,
    SCROLL_SEPOLIA_INITIAL_BLOCK, SEPOLIA_BRIDGE_ADDRESS, SEPOLIA_INITIAL_BLOCK,
    SEPOLIA_ORACLE_ETH_USD,
};
use dripswap_core::dec::Dec;
use dripswap_core::keys::{Field, Key, Table};
use dripswap_core::math::{exponent_to_big_decimal, safe_div};
use dripswap_core::pb::Erc20Token;
use dripswap_core::store::{DeltaOp, Store};
use dripswap_core::text::{ascii_lowercase, normalize_address, u64_to_string};

#[test]
fn dec_arithmetic_is_exact() {
    let a = Dec::from_int(3);
    let b = Dec::from_int(4);
    assert_eq!(a.add(b), Some(Dec { num: 7, den: 1 }));
    assert_eq!(a.sub(b), Some(Dec { num: -1, den: 1 }));
    assert_eq!(a.mul(b), Some(Dec { num: 12, den: 1 }));
    assert_eq!(a.div(b), Some(Dec { num: 3, den: 4 }));
    // results come out reduced
    let half = Dec { num: 2, den: 4 };
    let r = half.add(Dec::zero()).unwrap();
    assert_eq!(r, Dec { num: 1, den: 2 });
    // value equality sees through representations
    assert!(half.eq_value(&Dec { num: 1, den: 2 }));
    assert!(Dec { num: 1, den: 3 }.lt(&Dec { num: 1, den: 2 }));
    assert_eq!(Dec::from_int(3).min_of(Dec::from_int(8)), Dec { num: 3, den: 1 });
    assert_eq!(Dec::from_int(3).max_of(Dec::from_int(8)), Dec { num: 8, den: 1 });
    assert_eq!(Dec::from_int(-4).abs(), Dec { num: 4, den: 1 });
    assert_eq!(Dec::from_int(4).neg(), Dec { num: -4, den: 1 });
}

#[test]
fn guarded_division_returns_zero_on_zero_divisor() {
    let a = Dec::from_int(5);
    assert_eq!(safe_div(&a, &Dec::zero()), Some(Dec { num: 0, den: 1 }));
    assert_eq!(safe_div(&a, &Dec::from_int(2)), Some(Dec { num: 5, den: 2 }));
}

#[test]
fn raw_amounts_scale_by_decimals() {
    // 5000 raw units at eighteen decimals reduce to 1 / 2e14
    let d = Dec::from_raw(5000, 18).unwrap();
    assert_eq!(d, Dec { num: 1, den: 200_000_000_000_000 });
    assert_eq!(Dec::from_raw(7, 0), Some(Dec { num: 7, den: 1 }));
    assert_eq!(
        Dec::from_raw(1_000_000_000_000_000_000_000u128, 18),
        Some(Dec { num: 1000, den: 1 })
    );
}

#[test]
fn legacy_exponent_factor_is_off_by_one() {
    // the historic helper gives one power of ten less than the decimals
    assert_eq!(exponent_to_big_decimal(0).unwrap().num, 1);
    assert_eq!(exponent_to_big_decimal(1).unwrap().num, 1);
    assert_eq!(exponent_to_big_decimal(3).unwrap().num, 100);
    assert_eq!(exponent_to_big_decimal(18).unwrap().num, 100_000_000_000_000_000);
    // twenty or more decimals leave the representable range
    assert!(exponent_to_big_decimal(20).is_none());
}

#[test]
fn address_normal_form_strips_prefix_and_folds_case() {
    assert_eq!(normalize_address("0xAbCd01"), "abcd01");
    assert_eq!(normalize_address("0x0xAbCd01"), "abcd01");
    assert_eq!(normalize_address("NoPrefix"), "noprefix");
    assert_eq!(ascii_lowercase("MiXeD123"), "mixed123");
    assert_eq!(u64_to_string(0), "0");
    assert_eq!(u64_to_string(120), "120");
    assert_eq!(u64_to_string(9876543210), "9876543210");
}

#[test]
fn chain_configuration_lookups() {
    assert_eq!(get_oracle_address_for_chain(11155111), SEPOLIA_ORACLE_ETH_USD);
    assert_eq!(get_initial_block_for_chain(11155111), SEPOLIA_INITIAL_BLOCK);
    assert_eq!(get_initial_block_for_chain(534351), SCROLL_SEPOLIA_INITIAL_BLOCK);
    assert_eq!(get_initial_block_for_chain(1), SEPOLIA_INITIAL_BLOCK);
    assert!(is_bridge_address(SEPOLIA_BRIDGE_ADDRESS));
    assert!(is_bridge_address("0x9347B320E42877855CC6E66E5E5D6F18216CEEE7"));
    assert!(!is_bridge_address("0x0000000000000000000000000000000000000001"));
    assert_eq!(get_receiver_chain_name(CCIP_SELECTOR_SEPOLIA), "Ethereum Sepolia");
    assert_eq!(get_receiver_chain_name(CCIP_SELECTOR_SCROLL_SEPOLIA), "Scroll Sepolia");
    assert_eq!(get_receiver_chain_name(42), "Unknown");
    assert!(is_whitelisted_token("0xe91d02e66a9152fee1bc79c1830121f6507a4f6d"));
    assert!(is_whitelisted_token("0xE91D02E66A9152FEE1BC79C1830121F6507A4F6D"));
    assert!(!is_whitelisted_token("0x1111111111111111111111111111111111111111"));
}

#[test]
fn store_reads_are_ordinal_scoped() {
    let mut s: Store<Dec> = Store::new_store();
    let k = Key::entity(Table::Token, "0xt".to_string());
    s.set(k.dup(), 5, Dec::from_int(1));
    s.set(k.dup(), 9, Dec::from_int(2));
    assert_eq!(s.get_at(&k, 4), None);
    assert_eq!(s.get_at(&k, 5), Some(&Dec { num: 1, den: 1 }));
    assert_eq!(s.get_at(&k, 7), Some(&Dec { num: 1, den: 1 }));
    assert_eq!(s.get_at(&k, 9), Some(&Dec { num: 2, den: 1 }));
    assert_eq!(s.get_last(&k), Some(&Dec { num: 2, den: 1 }));
}

#[test]
fn store_accumulate_min_max() {
    let mut s: Store<Dec> = Store::new_store();
    let k = Key::entity_field(Table::Token, "0xt".to_string(), Field::Volume);
    s.add_value(k.dup(), 1, Dec::from_int(3));
    s.add_value(k.dup(), 2, Dec::from_int(4));
    assert_eq!(s.get_last(&k), Some(&Dec { num: 7, den: 1 }));
    let lo = Key::entity_field(Table::Token, "0xt".to_string(), Field::Low);
    s.min_value(lo.dup(), 3, Dec::from_int(9));
    s.min_value(lo.dup(), 4, Dec::from_int(5));
    s.min_value(lo.dup(), 5, Dec::from_int(8));
    assert_eq!(s.get_last(&lo), Some(&Dec { num: 5, den: 1 }));
    let hi = Key::entity_field(Table::Token, "0xt".to_string(), Field::High);
    s.max_value(hi.dup(), 6, Dec::from_int(5));
    s.max_value(hi.dup(), 7, Dec::from_int(11));
    s.max_value(hi.dup(), 8, Dec::from_int(2));
    assert_eq!(s.get_last(&hi), Some(&Dec { num: 11, den: 1 }));
}

#[test]
fn store_bucket_deletion_and_deltas() {
    let mut s: Store<Dec> = Store::new_store();
    let k_old = Key::window(Table::PoolDayData, 10, "0xp".to_string(), Field::NoField);
    let k_new = Key::window(Table::PoolDayData, 11, "0xp".to_string(), Field::NoField);
    s.set(k_old.dup(), 1, Dec::from_int(1));
    s.set(k_new.dup(), 2, Dec::from_int(2));
    s.delete_bucket(Table::PoolDayData, 10);
    assert_eq!(s.get_last(&k_old), None);
    assert_eq!(s.get_last(&k_new), Some(&Dec { num: 2, den: 1 }));
    // the change feed distinguishes creations from updates
    let mut s2: Store<Dec> = Store::new_store();
    let k = Key::entity(Table::Token, "0xt".to_string());
    s2.set(k.dup(), 1, Dec::from_int(4));
    s2.set(k.dup(), 2, Dec::from_int(6));
    let deltas = s2.collect_deltas();
    assert_eq!(deltas.len(), 2);
    assert_eq!(deltas[0].operation, DeltaOp::Create);
    assert_eq!(deltas[0].old_value, Dec::zero());
    assert_eq!(deltas[0].new_value, Dec { num: 4, den: 1 });
    assert_eq!(deltas[1].operation, DeltaOp::Update);
    assert_eq!(deltas[1].old_value, Dec { num: 4, den: 1 });
    assert_eq!(deltas[1].new_value, Dec { num: 6, den: 1 });
}

#[test]
fn key_text_follows_the_grammar() {
    assert_eq!(Key::bundle().render(), "bundle");
    assert_eq!(
        Key::entity_field(Table::Bundle, String::new(), Field::RoundId).render(),
        "bundle:roundId"
    );
    assert_eq!(
        Key::entity_field(Table::Factory, String::new(), Field::PairCount).render(),
        "factory:pairCount"
    );
    assert_eq!(
        Key::entity_field(Table::Token, "0xt".to_string(), Field::TokenVolumeUsd).render(),
        "token:0xt:volume:usd"
    );
    assert_eq!(
        Key::entity_field(Table::Token, "0xt".to_string(), Field::DerivedPriceEth).render(),
        "token:0xt:dprice:eth"
    );
    assert_eq!(
        Key::two_addr(Table::Pair, "0xa".to_string(), "0xb".to_string(), Field::NoField).render(),
        "pair:0xa:0xb"
    );
    assert_eq!(
        Key::two_addr(Table::Pool, "0xp".to_string(), "0xt".to_string(), Field::Native).render(),
        "pool:0xp:0xt:native"
    );
    assert_eq!(
        Key::window(Table::UniswapDayData, 19345, String::new(), Field::VolumeUsd).render(),
        "UniswapDayData:19345:volumeUSD"
    );
    assert_eq!(
        Key::window(Table::TokenMinuteData, 5, "0xt".to_string(), Field::NoField).render(),
        "TokenMinuteData:5:0xt"
    );
}

#[test]
fn token_log_line_lists_the_fields() {
    let t = Erc20Token {
        address: "0xabc".to_string(),
        name: "Name".to_string(),
        symbol: "SYM".to_string(),
        decimals: 18,
        total_supply: 0,
        whitelist_pools: Vec::new(),
    };
    assert_eq!(
        t.log(),
        "token addr: 0xabc, name: Name, symbol: SYM, decimals: 18"
    );
    assert_eq!(t.address(), "0xabc");
}

#[test]
fn get_amounts_negates_burn_flows() {
    let ev = dripswap_core::pb::PoolEvent {
        log_ordinal: 1,
        log_index: 1,
        pool_address: "0xp".to_string(),
        token0: "0xa".to_string(),
        token1: "0xb".to_string(),
        fee: 3000,
        transaction_id: "0xtx".to_string(),
        timestamp: 86400,
        created_at_block_number: 1,
        kind: dripswap_core::pb::PoolEventType::Burn {
            owner: "0xo".to_string(),
            origin: "0xo".to_string(),
            amount: 5,
            amount_0: Dec::from_int(2),
            amount_1: Dec::from_int(3),
        },
    };
    let amounts = ev.get_amounts().unwrap();
    assert_eq!(amounts.amount0, Dec { num: -2, den: 1 });
    assert_eq!(amounts.amount1, Dec { num: -3, den: 1 });
    assert_eq!(amounts.token0_addr, "0xa");
}
