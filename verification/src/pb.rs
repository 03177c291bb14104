//! The event and entity data model: tokens, pools, decoded pool events and
//! per-block event batches. Raw on-chain amounts are held as plain integers
//! and converted once to [`Dec`] where an event carries a scaled amount.

use vstd::prelude::*;
use crate::dec::Dec;
use crate::text::{dec_str, u64_to_string};

verus! {

/// An ERC-20 token as registered when its first pool is created.
#[derive(Debug)]
pub struct Erc20Token {
    pub address: String,
    pub name: String,
    pub symbol: String,
    pub decimals: u64,
    /// Total supply at registration, in the token's smallest unit.
    pub total_supply: u128,
    /// Addresses of whitelisted pools that pair this token with an anchor.
    pub whitelist_pools: Vec<String>,
}

/// The mathematical form of a token.
pub struct TokenV {
    pub address: Seq<char>,
    pub name: Seq<char>,
    pub symbol: Seq<char>,
    pub decimals: u64,
    pub total_supply: u128,
    pub whitelist_pools: Seq<Seq<char>>,
}

impl View for Erc20Token {
    type V = TokenV;

    open spec fn view(&self) -> TokenV {
        TokenV {
            address: self.address@,
            name: self.name@,
            symbol: self.symbol@,
            decimals: self.decimals,
            total_supply: self.total_supply,
            whitelist_pools: self.whitelist_pools@.map_values(|s: String| s@),
        }
    }
}

/// Field-wise sameness of two tokens (the pool list compared by contents).
pub open spec fn token_like(a: Erc20Token, b: Erc20Token) -> bool {
    &&& a.address == b.address
    &&& a.name == b.name
    &&& a.symbol == b.symbol
    &&& a.decimals == b.decimals
    &&& a.total_supply == b.total_supply
    &&& a.whitelist_pools@ == b.whitelist_pools@
}

impl Clone for Erc20Token {
    fn clone(&self) -> (r: Self)
        ensures
            token_like(r, *self),
    {
        let mut pools: Vec<String> = Vec::new();
        let mut i: usize = 0;
        while i < self.whitelist_pools.len()
            invariant
                0 <= i <= self.whitelist_pools@.len(),
                pools@ =~= self.whitelist_pools@.subrange(0, i as int),
            decreases self.whitelist_pools@.len() - i,
        {
            pools.push(self.whitelist_pools[i].clone());
            i = i + 1;
        }
        proof {
            assert(pools@ =~= self.whitelist_pools@);
        }
        Erc20Token {
            address: self.address.clone(),
            name: self.name.clone(),
            symbol: self.symbol.clone(),
            decimals: self.decimals,
            total_supply: self.total_supply,
            whitelist_pools: pools,
        }
    }
}

impl Erc20Token {
    pub fn address(&self) -> (r: &String)
        ensures
            r == &self.address,
    {
        &self.address
    }

    /// The diagnostic line describing this token.
    pub fn log(&self) -> (r: String)
        ensures
            r@ == "token addr: "@ + self.address@ + ", name: "@ + self.name@ + ", symbol: "@
                + self.symbol@ + ", decimals: "@ + dec_str(self.decimals as nat),
    {
        let mut line = String::new();
        line.append("token addr: ");
        line.append(self.address.as_str());
        line.append(", name: ");
        line.append(self.name.as_str());
        line.append(", symbol: ");
        line.append(self.symbol.as_str());
        line.append(", decimals: ");
        let d = u64_to_string(self.decimals);
        line.append(d.as_str());
        proof {
            assert(line@ =~= "token addr: "@ + self.address@ + ", name: "@ + self.name@
                + ", symbol: "@ + self.symbol@ + ", decimals: "@ + dec_str(self.decimals as nat));
        }
        line
    }
}

/// A V2-style pair pool. Immutable once created.
#[derive(Clone, Debug)]
pub struct Pool {
    pub address: String,
    pub transaction_id: String,
    pub created_at_block_number: u64,
    pub created_at_timestamp: u64,
    /// Fee in hundredths of a basis point (3000 = 0.3%).
    pub fee_tier: u64,
    pub log_ordinal: u64,
    pub ignore_pool: bool,
    pub token0: Option<Erc20Token>,
    pub token1: Option<Erc20Token>,
}

/// The mathematical form of a pool.
pub struct PoolV {
    pub address: Seq<char>,
    pub transaction_id: Seq<char>,
    pub created_at_block_number: u64,
    pub created_at_timestamp: u64,
    pub fee_tier: u64,
    pub log_ordinal: u64,
    pub ignore_pool: bool,
    pub token0: Option<TokenV>,
    pub token1: Option<TokenV>,
}

impl View for Pool {
    type V = PoolV;

    open spec fn view(&self) -> PoolV {
        PoolV {
            address: self.address@,
            transaction_id: self.transaction_id@,
            created_at_block_number: self.created_at_block_number,
            created_at_timestamp: self.created_at_timestamp,
            fee_tier: self.fee_tier,
            log_ordinal: self.log_ordinal,
            ignore_pool: self.ignore_pool,
            token0: match self.token0 {
                Some(t) => Some(t@),
                None => None,
            },
            token1: match self.token1 {
                Some(t) => Some(t@),
                None => None,
            },
        }
    }
}

impl Pool {
    /// Both token legs are present.
    pub open spec fn has_tokens(self) -> bool {
        self.token0 is Some && self.token1 is Some
    }

    pub fn should_handle_swap(&self) -> (r: bool)
        ensures
            r == !self.ignore_pool,
    {
        !self.ignore_pool
    }

    pub fn should_handle_mint_and_burn(&self) -> (r: bool)
        ensures
            r == !self.ignore_pool,
    {
        !self.ignore_pool
    }

    pub fn token0_ref(&self) -> (r: &Erc20Token)
        requires
            self.token0 is Some,
        ensures
            r == self.token0.unwrap(),
    {
        match &self.token0 {
            Some(t) => t,
            None => unreached(),
        }
    }

    pub fn token1_ref(&self) -> (r: &Erc20Token)
        requires
            self.token1 is Some,
        ensures
            r == self.token1.unwrap(),
    {
        match &self.token1 {
            Some(t) => t,
            None => unreached(),
        }
    }

    pub fn token0(&self) -> (r: Erc20Token)
        requires
            self.token0 is Some,
        ensures
            token_like(r, self.token0.unwrap()),
    {
        self.token0_ref().clone()
    }

    pub fn token1(&self) -> (r: Erc20Token)
        requires
            self.token1 is Some,
        ensures
            token_like(r, self.token1.unwrap()),
    {
        self.token1_ref().clone()
    }
}

/// Net token flows of one pool event. For a Swap the signs follow the pool's
/// view (positive = out of the pool); Mint amounts are inflows, Burn amounts
/// are recorded positive in the event and negated here.
pub enum PoolEventType {
    Swap {
        sender: String,
        recipient: String,
        origin: String,
        amount_0: Dec,
        amount_1: Dec,
    },
    Mint {
        owner: String,
        sender: String,
        origin: String,
        /// LP tokens minted, recovered from the paired transfer (zero when
        /// no transfer matched).
        amount: u128,
        amount_0: Dec,
        amount_1: Dec,
    },
    Burn {
        owner: String,
        origin: String,
        /// LP tokens destroyed, recovered from the paired transfer.
        amount: u128,
        amount_0: Dec,
        amount_1: Dec,
    },
}

/// The mathematical form of an event's payload.
pub enum PoolEventTypeV {
    Swap {
        sender: Seq<char>,
        recipient: Seq<char>,
        origin: Seq<char>,
        amount_0: Dec,
        amount_1: Dec,
    },
    Mint {
        owner: Seq<char>,
        sender: Seq<char>,
        origin: Seq<char>,
        amount: u128,
        amount_0: Dec,
        amount_1: Dec,
    },
    Burn {
        owner: Seq<char>,
        origin: Seq<char>,
        amount: u128,
        amount_0: Dec,
        amount_1: Dec,
    },
}

impl View for PoolEventType {
    type V = PoolEventTypeV;

    open spec fn view(&self) -> PoolEventTypeV {
        match *self {
            PoolEventType::Swap { sender, recipient, origin, amount_0, amount_1 } =>
                PoolEventTypeV::Swap {
                sender: sender@,
                recipient: recipient@,
                origin: origin@,
                amount_0,
                amount_1,
            },
            PoolEventType::Mint { owner, sender, origin, amount, amount_0, amount_1 } =>
                PoolEventTypeV::Mint {
                owner: owner@,
                sender: sender@,
                origin: origin@,
                amount,
                amount_0,
                amount_1,
            },
            PoolEventType::Burn { owner, origin, amount, amount_0, amount_1 } =>
                PoolEventTypeV::Burn {
                owner: owner@,
                origin: origin@,
                amount,
                amount_0,
                amount_1,
            },
        }
    }
}

/// The mathematical form of one pool event.
pub struct PoolEventV {
    pub log_ordinal: u64,
    pub log_index: u64,
    pub pool_address: Seq<char>,
    pub token0: Seq<char>,
    pub token1: Seq<char>,
    pub fee: u64,
    pub transaction_id: Seq<char>,
    pub timestamp: u64,
    pub created_at_block_number: u64,
    pub kind: PoolEventTypeV,
}

/// One decoded Swap, Mint or Burn, with its envelope metadata.
pub struct PoolEvent {
    pub log_ordinal: u64,
    pub log_index: u64,
    pub pool_address: String,
    pub token0: String,
    pub token1: String,
    pub fee: u64,
    pub transaction_id: String,
    pub timestamp: u64,
    pub created_at_block_number: u64,
    pub kind: PoolEventType,
}

impl View for PoolEvent {
    type V = PoolEventV;

    open spec fn view(&self) -> PoolEventV {
        PoolEventV {
            log_ordinal: self.log_ordinal,
            log_index: self.log_index,
            pool_address: self.pool_address@,
            token0: self.token0@,
            token1: self.token1@,
            fee: self.fee,
            transaction_id: self.transaction_id@,
            timestamp: self.timestamp,
            created_at_block_number: self.created_at_block_number,
            kind: self.kind@,
        }
    }
}

/// Token flow deltas of one event, with the token addresses they concern.
pub struct TokenAmounts {
    pub amount0: Dec,
    pub amount1: Dec,
    pub token0_addr: String,
    pub token1_addr: String,
}

/// ETH- and USD-denominated value of one event or reserve snapshot, in the
/// tracked (whitelist-derived) and untracked variants.
pub struct AdjustedAmounts {
    pub delta_tvl_eth: Dec,
    pub delta_tvl_usd: Dec,
    pub stable_eth_untracked: Dec,
    pub stable_usd_untracked: Dec,
}

/// A pool reserve snapshot from a Sync event. The two reserve fields keep
/// the legacy names of the upstream schema: `sqrt_price` carries reserve0
/// and `tick` carries reserve1, both in the raw smallest unit.
#[derive(Clone, Debug)]
pub struct PoolSqrtPrice {
    pub pool_address: String,
    pub ordinal: u64,
    pub sqrt_price: u128,
    pub tick: u128,
    pub initialized: bool,
}

/// A pool liquidity figure (unused by the V2 extraction, kept for schema
/// compatibility).
#[derive(Clone, Debug)]
pub struct PoolLiquidity {
    pub pool_address: String,
    pub liquidity: u128,
    pub log_ordinal: u64,
}

/// A transaction that touched at least one known pool.
#[derive(Clone, Debug)]
pub struct Transaction {
    pub id: String,
    pub block_number: u64,
    pub timestamp: u64,
    pub log_ordinal: u64,
}

/// Everything extracted from one block.
pub struct Events {
    pub pool_sqrt_prices: Vec<PoolSqrtPrice>,
    pub pool_liquidities: Vec<PoolLiquidity>,
    pub pool_events: Vec<PoolEvent>,
    pub transactions: Vec<Transaction>,
}

impl Events {
    pub fn new_empty() -> (r: Events)
        ensures
            r.pool_sqrt_prices@.len() == 0,
            r.pool_liquidities@.len() == 0,
            r.pool_events@.len() == 0,
            r.transactions@.len() == 0,
    {
        Events {
            pool_sqrt_prices: Vec::new(),
            pool_liquidities: Vec::new(),
            pool_events: Vec::new(),
            transactions: Vec::new(),
        }
    }
}

/// A batch of created pools.
pub struct Pools {
    pub pools: Vec<Pool>,
}

/// A batch of tokens gaining whitelisted pools.
pub struct Erc20Tokens {
    pub tokens: Vec<Erc20Token>,
}

impl PoolEvent {
    /// The token flow deltas of this event: Mint and Swap amounts as they
    /// stand, Burn amounts negated (outflows).
    pub fn get_amounts(&self) -> (r: Option<TokenAmounts>)
        requires
            (match self.kind {
                PoolEventType::Burn { amount_0, amount_1, .. } => amount_0.wf() && amount_1.wf(),
                _ => true,
            }),
        ensures
            r is Some,
            (match self.kind {
                PoolEventType::Swap { amount_0, amount_1, .. } => r.unwrap().amount0 == amount_0
                    && r.unwrap().amount1 == amount_1,
                PoolEventType::Mint { amount_0, amount_1, .. } => r.unwrap().amount0 == amount_0
                    && r.unwrap().amount1 == amount_1,
                PoolEventType::Burn { amount_0, amount_1, .. } => r.unwrap().amount0.num
                    == -amount_0.num && r.unwrap().amount0.den == amount_0.den
                    && r.unwrap().amount1.num == -amount_1.num && r.unwrap().amount1.den
                    == amount_1.den,
            }),
            r.unwrap().token0_addr == self.token0,
            r.unwrap().token1_addr == self.token1,
    {
        match &self.kind {
            PoolEventType::Mint { amount_0, amount_1, .. } => Some(TokenAmounts {
                amount0: *amount_0,
                amount1: *amount_1,
                token0_addr: self.token0.clone(),
                token1_addr: self.token1.clone(),
            }),
            PoolEventType::Burn { amount_0, amount_1, .. } => Some(TokenAmounts {
                amount0: amount_0.neg(),
                amount1: amount_1.neg(),
                token0_addr: self.token0.clone(),
                token1_addr: self.token1.clone(),
            }),
            PoolEventType::Swap { amount_0, amount_1, .. } => Some(TokenAmounts {
                amount0: *amount_0,
                amount1: *amount_1,
                token0_addr: self.token0.clone(),
                token1_addr: self.token1.clone(),
            }),
        }
    }
}


/// One decoded log payload, as handed in by the host after ABI decoding.
/// Addresses are hex text; raw values are in the token's smallest unit.
pub enum LogEvent {
    Transfer { from: String, to: String, value: u128 },
    Swap {
        sender: String,
        to: String,
        amount0_in: u128,
        amount0_out: u128,
        amount1_in: u128,
        amount1_out: u128,
    },
    Mint { sender: String, amount0: u128, amount1: u128 },
    Burn { sender: String, amount0: u128, amount1: u128 },
    Sync { reserve0: u128, reserve1: u128 },
    PairCreated { token0: Option<Erc20Token>, token1: Option<Erc20Token>, pair: String },
    Other,
}

/// One log with its envelope: the emitting address, the block-monotonic
/// ordinal and the transaction-monotonic index.
pub struct LogData {
    pub address: String,
    pub ordinal: u64,
    pub block_index: u64,
    pub event: LogEvent,
}

/// One transaction's logs, with its hash and sender.
pub struct TransactionData {
    pub hash: String,
    pub from: String,
    pub logs: Vec<LogData>,
}

/// One block's decoded content.
pub struct BlockData {
    pub number: u64,
    pub timestamp_seconds: u64,
    pub transactions: Vec<TransactionData>,
}

/// The mathematical form of a reserve snapshot.
pub struct PoolSqrtPriceV {
    pub pool_address: Seq<char>,
    pub ordinal: u64,
    pub sqrt_price: u128,
    pub tick: u128,
    pub initialized: bool,
}

impl View for PoolSqrtPrice {
    type V = PoolSqrtPriceV;

    open spec fn view(&self) -> PoolSqrtPriceV {
        PoolSqrtPriceV {
            pool_address: self.pool_address@,
            ordinal: self.ordinal,
            sqrt_price: self.sqrt_price,
            tick: self.tick,
            initialized: self.initialized,
        }
    }
}

/// The mathematical form of a transaction record.
pub struct TransactionV {
    pub id: Seq<char>,
    pub block_number: u64,
    pub timestamp: u64,
    pub log_ordinal: u64,
}

impl View for Transaction {
    type V = TransactionV;

    open spec fn view(&self) -> TransactionV {
        TransactionV {
            id: self.id@,
            block_number: self.block_number,
            timestamp: self.timestamp,
            log_ordinal: self.log_ordinal,
        }
    }
}

} // verus!

