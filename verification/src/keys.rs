//! The store key grammar, structured. A rendered key is `:`-delimited:
//! the table name, then for window tables the bucket id, then up to two
//! addresses, then a field suffix. Keeping keys structured lets contracts
//! quantify over their parts; [`Key::render`] fixes the exact text.

use vstd::prelude::*;
use vstd::string::StrSliceExecFns;
use crate::text::dec_str;
use crate::text::u64_to_string;

verus! {

/// The first segment of a key: entity tables and time-window tables.
#[derive(Clone, Copy, Debug, PartialEq, Eq, Structural)]
pub enum Table {
    Pool,
    Pair,
    Token,
    Factory,
    Bundle,
    UniswapDayData,
    PoolDayData,
    PoolHourData,
    TokenDayData,
    TokenHourData,
    TokenMinuteData,
}

/// The trailing field of a key (`NoField` when the key has none). The
/// variants carry the exact historic spellings, including the `volume:usd`
/// and `dprice:eth` two-segment forms used under the token table.
#[derive(Clone, Copy, Debug, PartialEq, Eq, Structural)]
pub enum Field {
    NoField,
    PairCount,
    Native,
    Token0,
    Token1,
    Volume,
    VolumeToken0,
    VolumeToken1,
    VolumeUsd,
    VolumeEth,
    VolumeUntrackedUsd,
    TokenVolumeUsd,
    TokenVolumeUntrackedUsd,
    FactoryUntrackedVolumeUsd,
    TotalVolumeUsd,
    TotalVolumeEth,
    FeesUsd,
    TotalFeesUsd,
    TotalFeesEth,
    DerivedPriceEth,
    TotalValueLockedUsd,
    TotalValueLockedEth,
    TotalValueLockedEthUntracked,
    TotalValueLockedUsdUntracked,
    LiquidityProviderCount,
    RoundId,
    Open,
    Low,
    High,
}

/// A structured store key. Window tables use `bucket`; entity keys leave
/// it zero. `addr2` is the second address of pair and per-token pool keys.
pub struct Key {
    pub table: Table,
    pub bucket: u64,
    pub addr: String,
    pub addr2: String,
    pub field: Field,
}

/// Whether the table is a time-window table (bucketed, subject to
/// retention pruning).
pub open spec fn is_window_table(t: Table) -> bool {
    ||| t == Table::UniswapDayData
    ||| t == Table::PoolDayData
    ||| t == Table::PoolHourData
    ||| t == Table::TokenDayData
    ||| t == Table::TokenHourData
    ||| t == Table::TokenMinuteData
}

/// The mathematical form of a key: addresses as character sequences.
pub struct KeyV {
    pub table: Table,
    pub bucket: u64,
    pub addr: Seq<char>,
    pub addr2: Seq<char>,
    pub field: Field,
}

impl View for Key {
    type V = KeyV;

    open spec fn view(&self) -> KeyV {
        KeyV {
            table: self.table,
            bucket: self.bucket,
            addr: self.addr@,
            addr2: self.addr2@,
            field: self.field,
        }
    }
}

/// A window-table key view.
pub open spec fn kv_window(table: Table, bucket: u64, addr: Seq<char>, field: Field) -> KeyV {
    KeyV { table, bucket, addr, addr2: Seq::<char>::empty(), field }
}

/// A window-table key view with a second address.
pub open spec fn kv_window2(
    table: Table,
    bucket: u64,
    addr: Seq<char>,
    addr2: Seq<char>,
    field: Field,
) -> KeyV {
    KeyV { table, bucket, addr, addr2, field }
}

/// An entity key view.
pub open spec fn kv_entity(table: Table, addr: Seq<char>) -> KeyV {
    KeyV { table, bucket: 0, addr, addr2: Seq::<char>::empty(), field: Field::NoField }
}

/// An entity key view with a field.
pub open spec fn kv_entity_field(table: Table, addr: Seq<char>, field: Field) -> KeyV {
    KeyV { table, bucket: 0, addr, addr2: Seq::<char>::empty(), field }
}

/// A two-address key view.
pub open spec fn kv_two_addr(table: Table, addr: Seq<char>, addr2: Seq<char>, field: Field) -> KeyV {
    KeyV { table, bucket: 0, addr, addr2, field }
}

/// The bundle key view.
pub open spec fn kv_bundle() -> KeyV {
    KeyV {
        table: Table::Bundle,
        bucket: 0,
        addr: Seq::<char>::empty(),
        addr2: Seq::<char>::empty(),
        field: Field::NoField,
    }
}

/// Key sameness: all five parts agree (addresses by contents).
pub open spec fn key_eq_spec(a: Key, b: Key) -> bool {
    a@ == b@
}

/// The text of a table name.
pub open spec fn table_text(t: Table) -> Seq<char> {
    match t {
        Table::Pool => "pool"@,
        Table::Pair => "pair"@,
        Table::Token => "token"@,
        Table::Factory => "factory"@,
        Table::Bundle => "bundle"@,
        Table::UniswapDayData => "UniswapDayData"@,
        Table::PoolDayData => "PoolDayData"@,
        Table::PoolHourData => "PoolHourData"@,
        Table::TokenDayData => "TokenDayData"@,
        Table::TokenHourData => "TokenHourData"@,
        Table::TokenMinuteData => "TokenMinuteData"@,
    }
}

/// The text of a field suffix.
pub open spec fn field_text(f: Field) -> Seq<char> {
    match f {
        Field::NoField => Seq::<char>::empty(),
        Field::PairCount => "pairCount"@,
        Field::Native => "native"@,
        Field::Token0 => "token0"@,
        Field::Token1 => "token1"@,
        Field::Volume => "volume"@,
        Field::VolumeToken0 => "volumeToken0"@,
        Field::VolumeToken1 => "volumeToken1"@,
        Field::VolumeUsd => "volumeUSD"@,
        Field::VolumeEth => "volumeETH"@,
        Field::VolumeUntrackedUsd => "volumeUntrackedUSD"@,
        Field::TokenVolumeUsd => "volume:usd"@,
        Field::TokenVolumeUntrackedUsd => "volume:untrackedUSD"@,
        Field::FactoryUntrackedVolumeUsd => "untrackedVolumeUSD"@,
        Field::TotalVolumeUsd => "totalVolumeUSD"@,
        Field::TotalVolumeEth => "totalVolumeETH"@,
        Field::FeesUsd => "feesUSD"@,
        Field::TotalFeesUsd => "totalFeesUSD"@,
        Field::TotalFeesEth => "totalFeesETH"@,
        Field::DerivedPriceEth => "dprice:eth"@,
        Field::TotalValueLockedUsd => "totalValueLockedUSD"@,
        Field::TotalValueLockedEth => "totalValueLockedETH"@,
        Field::TotalValueLockedEthUntracked => "totalValueLockedETHUntracked"@,
        Field::TotalValueLockedUsdUntracked => "totalValueLockedUSDUntracked"@,
        Field::LiquidityProviderCount => "liquidityProviderCount"@,
        Field::RoundId => "roundId"@,
        Field::Open => "open"@,
        Field::Low => "low"@,
        Field::High => "high"@,
    }
}

/// The rendered `:`-delimited text of a key.
pub open spec fn render_spec(k: Key) -> Seq<char> {
    table_text(k.table) + (if is_window_table(k.table) {
        ":"@ + dec_str(k.bucket as nat)
    } else {
        Seq::<char>::empty()
    }) + (if k.addr@.len() > 0 {
        ":"@ + k.addr@
    } else {
        Seq::<char>::empty()
    }) + (if k.addr2@.len() > 0 {
        ":"@ + k.addr2@
    } else {
        Seq::<char>::empty()
    }) + (if k.field != Field::NoField {
        ":"@ + field_text(k.field)
    } else {
        Seq::<char>::empty()
    })
}

/// The table name as text.
fn table_str(t: Table) -> (r: &'static str)
    ensures
        r@ == table_text(t),
{
    match t {
        Table::Pool => "pool",
        Table::Pair => "pair",
        Table::Token => "token",
        Table::Factory => "factory",
        Table::Bundle => "bundle",
        Table::UniswapDayData => "UniswapDayData",
        Table::PoolDayData => "PoolDayData",
        Table::PoolHourData => "PoolHourData",
        Table::TokenDayData => "TokenDayData",
        Table::TokenHourData => "TokenHourData",
        Table::TokenMinuteData => "TokenMinuteData",
    }
}

/// The field suffix as text.
fn field_str(f: Field) -> (r: &'static str)
    ensures
        r@ == field_text(f),
{
    proof {
        reveal_strlit("");
        assert(""@ =~= Seq::<char>::empty());
    }
    match f {
        Field::NoField => "",
        Field::PairCount => "pairCount",
        Field::Native => "native",
        Field::Token0 => "token0",
        Field::Token1 => "token1",
        Field::Volume => "volume",
        Field::VolumeToken0 => "volumeToken0",
        Field::VolumeToken1 => "volumeToken1",
        Field::VolumeUsd => "volumeUSD",
        Field::VolumeEth => "volumeETH",
        Field::VolumeUntrackedUsd => "volumeUntrackedUSD",
        Field::TokenVolumeUsd => "volume:usd",
        Field::TokenVolumeUntrackedUsd => "volume:untrackedUSD",
        Field::FactoryUntrackedVolumeUsd => "untrackedVolumeUSD",
        Field::TotalVolumeUsd => "totalVolumeUSD",
        Field::TotalVolumeEth => "totalVolumeETH",
        Field::FeesUsd => "feesUSD",
        Field::TotalFeesUsd => "totalFeesUSD",
        Field::TotalFeesEth => "totalFeesETH",
        Field::DerivedPriceEth => "dprice:eth",
        Field::TotalValueLockedUsd => "totalValueLockedUSD",
        Field::TotalValueLockedEth => "totalValueLockedETH",
        Field::TotalValueLockedEthUntracked => "totalValueLockedETHUntracked",
        Field::TotalValueLockedUsdUntracked => "totalValueLockedUSDUntracked",
        Field::LiquidityProviderCount => "liquidityProviderCount",
        Field::RoundId => "roundId",
        Field::Open => "open",
        Field::Low => "low",
        Field::High => "high",
    }
}

impl Key {
    /// An entity key: table and one address.
    pub fn entity(table: Table, addr: String) -> (r: Key)
        ensures
            r.table == table && r.bucket == 0 && r.addr == addr && r.addr2@ == Seq::<
                char,
            >::empty() && r.field == Field::NoField,
    {
        Key { table, bucket: 0, addr, addr2: String::new(), field: Field::NoField }
    }

    /// An entity key with a field suffix.
    pub fn entity_field(table: Table, addr: String, field: Field) -> (r: Key)
        ensures
            r.table == table && r.bucket == 0 && r.addr == addr && r.addr2@ == Seq::<
                char,
            >::empty() && r.field == field,
    {
        Key { table, bucket: 0, addr, addr2: String::new(), field }
    }

    /// A two-address key (pairs; per-token pool reserves and prices).
    pub fn two_addr(table: Table, addr: String, addr2: String, field: Field) -> (r: Key)
        ensures
            r.table == table && r.bucket == 0 && r.addr == addr && r.addr2 == addr2 && r.field
                == field,
    {
        Key { table, bucket: 0, addr, addr2, field }
    }

    /// A window key: table, bucket id, entity address, field suffix.
    pub fn window(table: Table, bucket: u64, addr: String, field: Field) -> (r: Key)
        ensures
            r.table == table && r.bucket == bucket && r.addr == addr && r.addr2@ == Seq::<
                char,
            >::empty() && r.field == field,
    {
        Key { table, bucket, addr, addr2: String::new(), field }
    }

    /// A window key with a second address.
    pub fn window2(table: Table, bucket: u64, addr: String, addr2: String, field: Field) -> (r:
        Key)
        ensures
            r.table == table && r.bucket == bucket && r.addr == addr && r.addr2 == addr2
                && r.field == field,
    {
        Key { table, bucket, addr, addr2, field }
    }

    /// The key on the global bundle (the ETH/USD price).
    pub fn bundle() -> (r: Key)
        ensures
            r.table == Table::Bundle && r.bucket == 0 && r.addr@ == Seq::<char>::empty()
                && r.addr2@ == Seq::<char>::empty() && r.field == Field::NoField,
    {
        Key {
            table: Table::Bundle,
            bucket: 0,
            addr: String::new(),
            addr2: String::new(),
            field: Field::NoField,
        }
    }

    /// Exact sameness of two keys.
    pub fn matches(&self, other: &Key) -> (r: bool)
        ensures
            r == key_eq_spec(*self, *other),
    {
        let tables_eq = self.table == other.table;
        let fields_eq = self.field == other.field;
        tables_eq && self.bucket == other.bucket && crate::text::str_eq(
            self.addr.as_str(),
            other.addr.as_str(),
        ) && crate::text::str_eq(self.addr2.as_str(), other.addr2.as_str()) && fields_eq
    }

    /// Whether the key lies in the given window bucket.
    pub fn in_bucket(&self, table: Table, bucket: u64) -> (r: bool)
        ensures
            r == (self.table == table && self.bucket == bucket),
    {
        self.table == table && self.bucket == bucket
    }

    /// A copy of this key.
    pub fn dup(&self) -> (r: Key)
        ensures
            key_eq_spec(r, *self),
    {
        Key {
            table: self.table,
            bucket: self.bucket,
            addr: self.addr.clone(),
            addr2: self.addr2.clone(),
            field: self.field,
        }
    }

    /// The `:`-delimited text of this key, exactly as the downstream
    /// store expects it.
    pub fn render(&self) -> (r: String)
        ensures
            r@ == render_spec(*self),
    {
        let mut out = String::new();
        out.append(table_str(self.table));
        let window = match self.table {
            Table::UniswapDayData => true,
            Table::PoolDayData => true,
            Table::PoolHourData => true,
            Table::TokenDayData => true,
            Table::TokenHourData => true,
            Table::TokenMinuteData => true,
            _ => false,
        };
        if window {
            out.append(":");
            let b = u64_to_string(self.bucket);
            out.append(b.as_str());
        }
        if self.addr.as_str().unicode_len() > 0 {
            out.append(":");
            out.append(self.addr.as_str());
        }
        if self.addr2.as_str().unicode_len() > 0 {
            out.append(":");
            out.append(self.addr2.as_str());
        }
        let has_field = !(self.field == Field::NoField);
        if has_field {
            out.append(":");
            out.append(field_str(self.field));
        }
        proof {
            assert(out@ =~= render_spec(*self));
        }
        out
    }
}

} // verus!
