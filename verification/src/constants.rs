//! Static configuration: factory, oracle and bridge addresses, the token
//! whitelist, and per-chain parameters. All addresses are deterministic
//! deployments, identical on both supported chains unless noted.

use vstd::prelude::*;
use crate::text::{ascii_lowercase, lowered, normalize_address, normalized, str_eq};

verus! {

pub const UNISWAP_V2_FACTORY: &'static str = "0x6c9258026a9272368e49bbb7d0a78c17bbe284bf";

pub const SEPOLIA_ORACLE_ETH_USD: &'static str = "0x694aa1769357215de4fac081bf1f309adc325306";

pub const SCROLL_SEPOLIA_ORACLE_ETH_USD: &'static str =
    "0x59f1ec1f10bd7ed9b938431086bc1d9e233ecf41";

pub const SEPOLIA_INITIAL_BLOCK: u64 = 9573280;

pub const SCROLL_SEPOLIA_INITIAL_BLOCK: u64 = 14731854;

pub const SEPOLIA_BRIDGE_ADDRESS: &'static str = "0x9347b320e42877855cc6e66e5e5d6f18216ceee7";

pub const SCROLL_SEPOLIA_BRIDGE_ADDRESS: &'static str =
    "0xbe2ccda786bf69b0ae4251e6b34df212cef4f645";

/// Chain selector of Ethereum Sepolia in cross-chain transfer messages.
pub const CCIP_SELECTOR_SEPOLIA: u64 = 16015286601757825753;

/// Chain selector of Scroll Sepolia in cross-chain transfer messages.
pub const CCIP_SELECTOR_SCROLL_SEPOLIA: u64 = 2279865765895943307;

pub const ZERO_ADDRESS: &'static str = "0x0000000000000000000000000000000000000000";

/// The permanently locked minimum-liquidity amount minted to the zero
/// address on a pool's first liquidity provision, in the LP token's
/// smallest unit.
pub const MINIMUM_LIQUIDITY_LOCK: u128 = 1000;

/// Chain identifier of Ethereum Sepolia.
pub const SEPOLIA_CHAIN_ID: u64 = 11155111;

/// Chain identifier of Scroll Sepolia.
pub const SCROLL_SEPOLIA_CHAIN_ID: u64 = 534351;

/// The ETH/USD oracle address for a chain (Sepolia for unknown chains).
pub fn get_oracle_address_for_chain(chain_id: u64) -> (r: &'static str)
    ensures
        chain_id == SEPOLIA_CHAIN_ID ==> r@ == SEPOLIA_ORACLE_ETH_USD@,
        chain_id == SCROLL_SEPOLIA_CHAIN_ID ==> r@ == SCROLL_SEPOLIA_ORACLE_ETH_USD@,
        chain_id != SEPOLIA_CHAIN_ID && chain_id != SCROLL_SEPOLIA_CHAIN_ID ==> r@
            == SEPOLIA_ORACLE_ETH_USD@,
{
    if chain_id == SCROLL_SEPOLIA_CHAIN_ID {
        SCROLL_SEPOLIA_ORACLE_ETH_USD
    } else {
        SEPOLIA_ORACLE_ETH_USD
    }
}

/// The first indexed block for a chain (Sepolia for unknown chains).
pub fn get_initial_block_for_chain(chain_id: u64) -> (r: u64)
    ensures
        r == if chain_id == SCROLL_SEPOLIA_CHAIN_ID {
            SCROLL_SEPOLIA_INITIAL_BLOCK
        } else {
            SEPOLIA_INITIAL_BLOCK
        },
{
    if chain_id == SCROLL_SEPOLIA_CHAIN_ID {
        SCROLL_SEPOLIA_INITIAL_BLOCK
    } else {
        SEPOLIA_INITIAL_BLOCK
    }
}

/// Whether the address is one of the two bridge contracts, compared in
/// normal form (`0x` stripped, case folded).
pub fn is_bridge_address(address: &str) -> (r: bool)
    ensures
        r == (normalized(address@) == normalized(SEPOLIA_BRIDGE_ADDRESS@) || normalized(address@)
            == normalized(SCROLL_SEPOLIA_BRIDGE_ADDRESS@)),
{
    let addr = normalize_address(address);
    let b1 = normalize_address(SEPOLIA_BRIDGE_ADDRESS);
    let b2 = normalize_address(SCROLL_SEPOLIA_BRIDGE_ADDRESS);
    addr == b1 || addr == b2
}

/// The display name of the chain a cross-chain transfer goes to.
pub fn get_receiver_chain_name(selector: u64) -> (r: &'static str)
    ensures
        selector == CCIP_SELECTOR_SEPOLIA ==> r@ == "Ethereum Sepolia"@,
        selector == CCIP_SELECTOR_SCROLL_SEPOLIA ==> r@ == "Scroll Sepolia"@,
        selector != CCIP_SELECTOR_SEPOLIA && selector != CCIP_SELECTOR_SCROLL_SEPOLIA ==> r@
            == "Unknown"@,
{
    if selector == CCIP_SELECTOR_SEPOLIA {
        "Ethereum Sepolia"
    } else if selector == CCIP_SELECTOR_SCROLL_SEPOLIA {
        "Scroll Sepolia"
    } else {
        "Unknown"
    }
}

/// The case-folded form of an address is one of the whitelisted tokens.
pub open spec fn is_whitelisted_spec(s: Seq<char>) -> bool {
    let t = lowered(s);
    ||| t == "0xe91d02e66a9152fee1bc79c1830121f6507a4f6d"@
    ||| t == "0x46a906fca4487c87f0d89d2d0824ec57bdaa947d"@
    ||| t == "0xbacdbe38df8421d0aa90262beb1c20d32a634fe7"@
    ||| t == "0x0c156e2f45a812ad743760a88d73fb22879bc299"@
    ||| t == "0xaea8c2f08b10fe1853300df4332e462b449e19d6"@
    ||| t == "0x1a95d5d1930b807b62b20f3ca6b2451ffc75b454"@
    ||| t == "0x4911fb3923f6da0cd4920f914991b0a742d88bfd"@
}

/// Whether the address (case folded, `0x` prefix kept) is a whitelisted
/// price-discovery anchor token: wrapped ETH, the three stablecoins,
/// wrapped BTC, the oracle token, or the rollup token.
pub fn is_whitelisted_token(address: &str) -> (r: bool)
    ensures
        r == is_whitelisted_spec(address@),
{
    let lowered_addr = ascii_lowercase(address);
    let r1 = str_eq(lowered_addr.as_str(), "0xe91d02e66a9152fee1bc79c1830121f6507a4f6d");
    let r2 = str_eq(lowered_addr.as_str(), "0x46a906fca4487c87f0d89d2d0824ec57bdaa947d");
    let r3 = str_eq(lowered_addr.as_str(), "0xbacdbe38df8421d0aa90262beb1c20d32a634fe7");
    let r4 = str_eq(lowered_addr.as_str(), "0x0c156e2f45a812ad743760a88d73fb22879bc299");
    let r5 = str_eq(lowered_addr.as_str(), "0xaea8c2f08b10fe1853300df4332e462b449e19d6");
    let r6 = str_eq(lowered_addr.as_str(), "0x1a95d5d1930b807b62b20f3ca6b2451ffc75b454");
    let r7 = str_eq(lowered_addr.as_str(), "0x4911fb3923f6da0cd4920f914991b0a742d88bfd");
    r1 || r2 || r3 || r4 || r5 || r6 || r7
}

} // verus!
