//! Correlation of LP-token transfers with the Mint and Burn pool events
//! that caused them. Transfers are recorded per pool within one
//! transaction; each Mint or Burn then consumes the closest matching
//! transfer, and a consumed transfer is never handed out twice.

use vstd::prelude::*;
use crate::constants::{MINIMUM_LIQUIDITY_LOCK, ZERO_ADDRESS};
use crate::dec::Dec;
use crate::pb::{
    LogData, LogEvent, Pool, PoolEvent, PoolEventType, PoolEventTypeV, PoolEventV,
    PoolLiquidity, PoolSqrtPrice, PoolSqrtPriceV, Transaction, TransactionData, TransactionV,
};
use crate::text::{normalize_address, normalized};
use vstd::string::StrSliceExecFns;

verus! {

/// The zero address in normal form.
pub open spec fn zero_addr_spec() -> Seq<char> {
    normalized(ZERO_ADDRESS@)
}

/// One LP-token transfer, with its consumption flag. Addresses are stored
/// in normal form.
pub struct TransferEvent {
    pub log_index: u64,
    pub from: String,
    pub to: String,
    pub value: u128,
    pub used: bool,
}

/// The transfers of one pool within the current transaction.
pub struct PoolTransfers {
    pub pool: String,
    pub transfers: Vec<TransferEvent>,
}

/// Per-transaction transfer bookkeeping, grouped by pool address.
pub struct TransferContext {
    pub per_pool: Vec<PoolTransfers>,
}

/// The first position holding transfers for `pool`, or -1.
pub open spec fn first_pool_index(s: Seq<PoolTransfers>, pool: Seq<char>) -> int
    decreases s.len(),
{
    if s.len() == 0 {
        -1
    } else if s[0].pool@ == pool {
        0
    } else {
        let rest = first_pool_index(s.skip(1), pool);
        if rest == -1 {
            -1
        } else {
            1 + rest
        }
    }
}

/// An unused transfer from the zero address to some holder, at or before
/// the mint's log index.
pub open spec fn mint_candidate(ev: TransferEvent, mint_log_index: u64) -> bool {
    &&& !ev.used
    &&& ev.from@ == zero_addr_spec()
    &&& ev.to@ != zero_addr_spec()
    &&& ev.log_index <= mint_log_index
}

/// An unused transfer from the pool to the zero address, at or after the
/// burn's log index (burn completion).
pub open spec fn burn_candidate(ev: TransferEvent, pool: Seq<char>, burn_log_index: u64) -> bool {
    &&& !ev.used
    &&& ev.from@ == pool
    &&& ev.to@ == zero_addr_spec()
    &&& ev.log_index >= burn_log_index
}

/// An unused transfer into the pool at or before the burn's log index
/// (deposit preceding the burn).
pub open spec fn burn_fallback_candidate(
    ev: TransferEvent,
    pool: Seq<char>,
    burn_log_index: u64,
) -> bool {
    &&& !ev.used
    &&& ev.to@ == pool
    &&& ev.log_index <= burn_log_index
}

/// The first position of the mint candidate with the largest log index,
/// or -1.
pub open spec fn best_mint_index(s: Seq<TransferEvent>, mint_log_index: u64) -> int
    decreases s.len(),
{
    if s.len() == 0 {
        -1
    } else {
        let prev = best_mint_index(s.drop_last(), mint_log_index);
        let i = s.len() - 1;
        if mint_candidate(s[i as int], mint_log_index) && (prev == -1 || s[i as int].log_index
            > s[prev].log_index) {
            i as int
        } else {
            prev
        }
    }
}

/// The first position of the burn-completion candidate with the smallest
/// log index, or -1.
pub open spec fn best_burn_index(s: Seq<TransferEvent>, pool: Seq<char>, burn_log_index: u64) -> int
    decreases s.len(),
{
    if s.len() == 0 {
        -1
    } else {
        let prev = best_burn_index(s.drop_last(), pool, burn_log_index);
        let i = s.len() - 1;
        if burn_candidate(s[i as int], pool, burn_log_index) && (prev == -1 || s[i as int].log_index
            < s[prev].log_index) {
            i as int
        } else {
            prev
        }
    }
}

/// The first position of the fallback burn candidate with the largest log
/// index, or -1.
pub open spec fn best_burn_fallback_index(
    s: Seq<TransferEvent>,
    pool: Seq<char>,
    burn_log_index: u64,
) -> int
    decreases s.len(),
{
    if s.len() == 0 {
        -1
    } else {
        let prev = best_burn_fallback_index(s.drop_last(), pool, burn_log_index);
        let i = s.len() - 1;
        if burn_fallback_candidate(s[i as int], pool, burn_log_index) && (prev == -1 || s[
            i as int
        ].log_index > s[prev].log_index) {
            i as int
        } else {
            prev
        }
    }
}

/// Same transfer with the consumption flag raised.
pub open spec fn consumed(ev: TransferEvent) -> TransferEvent {
    TransferEvent { used: true, ..ev }
}

/// No recorded transfer is the permanently locked minimum-liquidity mint
/// (a transfer of exactly the lock amount to the zero address).
pub open spec fn no_lock_transfer(s: Seq<TransferEvent>) -> bool {
    forall|j: int|
        0 <= j < s.len() ==> !(#[trigger] s[j].to@ == zero_addr_spec() && s[j].value
            == MINIMUM_LIQUIDITY_LOCK)
}

/// The lock filter, over the whole context.
pub open spec fn ctx_no_lock(ctx: TransferContext) -> bool {
    forall|k: int|
        0 <= k < ctx.per_pool@.len() ==> no_lock_transfer(#[trigger] ctx.per_pool@[k].transfers@)
}

/// A transfer has exactly these fields.
pub open spec fn tev_matches(
    ev: TransferEvent,
    log_index: u64,
    from: Seq<char>,
    to: Seq<char>,
    value: u128,
    used: bool,
) -> bool {
    &&& ev.log_index == log_index
    &&& ev.from@ == from
    &&& ev.to@ == to
    &&& ev.value == value
    &&& ev.used == used
}

/// What [`first_pool_index`] returns: -1 when no entry matches, else the
/// first matching position.
pub proof fn lemma_first_pool_index(s: Seq<PoolTransfers>, pool: Seq<char>)
    ensures
        first_pool_index(s, pool) >= -1,
        first_pool_index(s, pool) == -1 ==> forall|j: int|
            0 <= j < s.len() ==> (#[trigger] s[j].pool@) != pool,
        first_pool_index(s, pool) >= 0 ==> {
            let k = first_pool_index(s, pool);
            &&& k < s.len()
            &&& s[k].pool@ == pool
            &&& forall|j: int| 0 <= j < k ==> (#[trigger] s[j].pool@) != pool
        },
    decreases s.len(),
{
    if s.len() > 0 && s[0].pool@ != pool {
        lemma_first_pool_index(s.skip(1), pool);
        let rest = first_pool_index(s.skip(1), pool);
        if rest == -1 {
            assert forall|j: int| 0 <= j < s.len() implies (#[trigger] s[j].pool@) != pool by {
                if j >= 1 {
                    assert(s.skip(1)[j - 1] == s[j]);
                    assert(s.skip(1)[j - 1].pool@ != pool);
                }
            }
        } else {
            let k = first_pool_index(s, pool);
            assert(k == 1 + rest);
            assert(0 <= rest && rest < s.skip(1).len());
            assert(s.skip(1)[rest].pool@ == pool);
            assert(s.skip(1)[rest] == s[1 + rest]);
            assert forall|j: int| 0 <= j < k implies (#[trigger] s[j].pool@) != pool by {
                if j >= 1 {
                    assert(s.skip(1)[j - 1] == s[j]);
                    assert(s.skip(1)[j - 1].pool@ != pool);
                }
            }
        }
    }
}

/// Any selected mint match is a mint candidate (in particular: unused,
/// zero-origin, to a nonzero holder, at or before the mint).
pub proof fn lemma_best_mint_index_candidate(s: Seq<TransferEvent>, mint_log_index: u64)
    ensures
        best_mint_index(s, mint_log_index) >= -1,
        best_mint_index(s, mint_log_index) >= 0 ==> best_mint_index(s, mint_log_index) < s.len()
            && mint_candidate(s[best_mint_index(s, mint_log_index)], mint_log_index),
    decreases s.len(),
{
    if s.len() > 0 {
        lemma_best_mint_index_candidate(s.drop_last(), mint_log_index);
    }
}

/// Any selected burn-completion match is a burn candidate.
pub proof fn lemma_best_burn_index_candidate(
    s: Seq<TransferEvent>,
    pool: Seq<char>,
    burn_log_index: u64,
)
    ensures
        best_burn_index(s, pool, burn_log_index) >= -1,
        best_burn_index(s, pool, burn_log_index) >= 0 ==> best_burn_index(s, pool, burn_log_index)
            < s.len() && burn_candidate(s[best_burn_index(s, pool, burn_log_index)], pool, burn_log_index),
    decreases s.len(),
{
    if s.len() > 0 {
        lemma_best_burn_index_candidate(s.drop_last(), pool, burn_log_index);
    }
}

/// Any selected fallback match is a fallback candidate.
pub proof fn lemma_best_burn_fallback_index_candidate(
    s: Seq<TransferEvent>,
    pool: Seq<char>,
    burn_log_index: u64,
)
    ensures
        best_burn_fallback_index(s, pool, burn_log_index) >= -1,
        best_burn_fallback_index(s, pool, burn_log_index) >= 0 ==> best_burn_fallback_index(
            s,
            pool,
            burn_log_index,
        ) < s.len() && burn_fallback_candidate(
            s[best_burn_fallback_index(s, pool, burn_log_index)],
            pool,
            burn_log_index,
        ),
    decreases s.len(),
{
    if s.len() > 0 {
        lemma_best_burn_fallback_index_candidate(s.drop_last(), pool, burn_log_index);
    }
}

/// The minimum-liquidity lock transfer is never returned: in a transfer
/// list that passed the recording filter, no selection — for a mint, a
/// burn completion, or a burn fallback — picks a transfer of the lock
/// amount sent to the zero address.
pub proof fn lemma_lock_transfer_never_returned(
    s: Seq<TransferEvent>,
    pool: Seq<char>,
    log_index: u64,
)
    requires
        no_lock_transfer(s),
    ensures
        best_mint_index(s, log_index) >= 0 ==> !(s[best_mint_index(s, log_index)].to@
            == zero_addr_spec() && s[best_mint_index(s, log_index)].value
            == MINIMUM_LIQUIDITY_LOCK),
        best_burn_index(s, pool, log_index) >= 0 ==> !(s[best_burn_index(s, pool, log_index)].to@
            == zero_addr_spec() && s[best_burn_index(s, pool, log_index)].value
            == MINIMUM_LIQUIDITY_LOCK),
        best_burn_fallback_index(s, pool, log_index) >= 0 ==> !(s[best_burn_fallback_index(
            s,
            pool,
            log_index,
        )].to@ == zero_addr_spec() && s[best_burn_fallback_index(s, pool, log_index)].value
            == MINIMUM_LIQUIDITY_LOCK),
{
    lemma_best_mint_index_candidate(s, log_index);
    lemma_best_burn_index_candidate(s, pool, log_index);
    lemma_best_burn_fallback_index_candidate(s, pool, log_index);
}

/// A consumed transfer is never handed out twice: once position `b` is
/// marked used, no later selection over the updated list — with any log
/// index and either matching direction — returns `b` again.
pub proof fn lemma_consumed_not_selected_again(
    s: Seq<TransferEvent>,
    b: int,
    pool: Seq<char>,
    later_log_index: u64,
)
    requires
        0 <= b < s.len(),
    ensures
        best_mint_index(s.update(b, consumed(s[b])), later_log_index) != b,
        best_burn_index(s.update(b, consumed(s[b])), pool, later_log_index) != b,
        best_burn_fallback_index(s.update(b, consumed(s[b])), pool, later_log_index) != b,
{
    let s2 = s.update(b, consumed(s[b]));
    assert(s2[b].used);
    lemma_best_mint_index_candidate(s2, later_log_index);
    lemma_best_burn_index_candidate(s2, pool, later_log_index);
    lemma_best_burn_fallback_index_candidate(s2, pool, later_log_index);
}

impl TransferContext {
    /// An empty per-transaction context.
    pub fn new_context() -> (r: TransferContext)
        ensures
            r.per_pool@.len() == 0,
            ctx_no_lock(r),
    {
        TransferContext { per_pool: Vec::new() }
    }

    /// The position holding transfers for `pool_address`, if any.
    fn find_pool_slot(&self, pool_address: &str) -> (r: Option<usize>)
        ensures
            match r {
                Some(k) => 0 <= k < self.per_pool@.len() && first_pool_index(
                    self.per_pool@,
                    pool_address@,
                ) == k,
                None => first_pool_index(self.per_pool@, pool_address@) == -1,
            },
    {
        proof {
            lemma_first_pool_index(self.per_pool@, pool_address@);
        }
        let n = self.per_pool.len();
        let mut i: usize = 0;
        while i < n
            invariant
                0 <= i <= n,
                n == self.per_pool@.len(),
                forall|j: int| 0 <= j < i ==> (#[trigger] self.per_pool@[j].pool@) != pool_address@,
            decreases n - i,
        {
            if crate::text::str_eq(self.per_pool[i].pool.as_str(), pool_address) {
                proof {
                    lemma_first_pool_index(self.per_pool@, pool_address@);
                }
                return Some(i);
            }
            i = i + 1;
        }
        None
    }

    /// Records one LP-token transfer for a pool, normalizing both
    /// addresses, except the permanently locked minimum-liquidity mint
    /// (value exactly the lock amount, sent to the zero address), which is
    /// never stored.
    pub fn record_transfer(
        &mut self,
        pool_address: &str,
        log_index: u64,
        from: &str,
        to: &str,
        value: u128,
    )
        ensures
            (normalized(to@) == zero_addr_spec() && value == MINIMUM_LIQUIDITY_LOCK)
                ==> final(self).per_pool@ == old(self).per_pool@,
            !(normalized(to@) == zero_addr_spec() && value == MINIMUM_LIQUIDITY_LOCK) ==> {
                let k = first_pool_index(old(self).per_pool@, pool_address@);
                &&& k >= 0 ==> {
                    &&& final(self).per_pool@.len() == old(self).per_pool@.len()
                    &&& forall|j: int|
                        0 <= j < old(self).per_pool@.len() && j != k ==> final(self).per_pool@[j]
                            == old(self).per_pool@[j]
                    &&& final(self).per_pool@[k].pool == old(self).per_pool@[k].pool
                    &&& final(self).per_pool@[k].transfers@.len() == old(self).per_pool@[k].transfers@.len() + 1
                    &&& forall|j: int|
                        0 <= j < old(self).per_pool@[k].transfers@.len() ==> final(self).per_pool@[k].transfers@[j] == old(self).per_pool@[k].transfers@[j]
                    &&& tev_matches(
                        final(self).per_pool@[k].transfers@.last(),
                        log_index,
                        normalized(from@),
                        normalized(to@),
                        value,
                        false,
                    )
                }
                &&& k == -1 ==> {
                    &&& final(self).per_pool@.len() == old(self).per_pool@.len() + 1
                    &&& forall|j: int|
                        0 <= j < old(self).per_pool@.len() ==> final(self).per_pool@[j] == old(self).per_pool@[j]
                    &&& final(self).per_pool@.last().pool@ == pool_address@
                    &&& final(self).per_pool@.last().transfers@.len() == 1
                    &&& tev_matches(
                        final(self).per_pool@.last().transfers@[0],
                        log_index,
                        normalized(from@),
                        normalized(to@),
                        value,
                        false,
                    )
                }
            },
            ctx_no_lock(*old(self)) ==> ctx_no_lock(*final(self)),
    {
        let nf = normalize_address(from);
        let nt = normalize_address(to);
        let zero = normalize_address(ZERO_ADDRESS);

        // ignore the one-time lock minted on first liquidity provision
        if nt == zero && value == MINIMUM_LIQUIDITY_LOCK {
            return ;
        }

        let ev = TransferEvent { log_index, from: nf, to: nt, value, used: false };
        match self.find_pool_slot(pool_address) {
            Some(k) => {
                self.per_pool[k].transfers.push(ev);
            },
            None => {
                let mut transfers: Vec<TransferEvent> = Vec::new();
                transfers.push(ev);
                self.per_pool.push(
                    PoolTransfers { pool: pool_address.to_owned(), transfers },
                );
            },
        }
    }

    /// Consumes the closest unused zero-origin transfer at or before the
    /// mint's log index; returns its recipient and value.
    pub fn consume_mint(&mut self, pool_address: &str, mint_log_index: u64) -> (r: Option<
        (String, u128),
    >)
        ensures
            ({
                let k = first_pool_index(old(self).per_pool@, pool_address@);
                &&& k == -1 ==> r is None && final(self).per_pool@ == old(self).per_pool@
                &&& k >= 0 ==> {
                    let s = old(self).per_pool@[k].transfers@;
                    let b = best_mint_index(s, mint_log_index);
                    &&& b == -1 ==> r is None && final(self).per_pool@ == old(self).per_pool@
                    &&& b >= 0 ==> {
                        &&& r is Some
                        &&& r.unwrap().0@ == s[b].to@
                        &&& r.unwrap().1 == s[b].value
                        &&& final(self).per_pool@.len() == old(self).per_pool@.len()
                        &&& forall|j: int|
                            0 <= j < old(self).per_pool@.len() && j != k ==> final(self).per_pool@[j] == old(self).per_pool@[j]
                        &&& final(self).per_pool@[k].pool == old(self).per_pool@[k].pool
                        &&& final(self).per_pool@[k].transfers@ == s.update(b, consumed(s[b]))
                    }
                }
            }),
            ctx_no_lock(*old(self)) ==> ctx_no_lock(*final(self)),
    {
        let slot = self.find_pool_slot(pool_address);
        let k = match slot {
            Some(k) => k,
            None => {
                return None;
            },
        };
        let zero = normalize_address(ZERO_ADDRESS);
        let ghost s = self.per_pool@[k as int].transfers@;
        let n = self.per_pool[k].transfers.len();
        let mut selected: usize = 0;
        let mut have: bool = false;
        let mut i: usize = 0;
        proof {
            assert(s.subrange(0, 0) =~= Seq::<TransferEvent>::empty());
        }
        while i < n
            invariant
                0 <= i <= n,
                0 <= k < self.per_pool@.len(),
                n == s.len(),
                s == self.per_pool@[k as int].transfers@,
                zero@ == zero_addr_spec(),
                !have ==> best_mint_index(s.subrange(0, i as int), mint_log_index) == -1,
                have ==> selected < i && best_mint_index(s.subrange(0, i as int), mint_log_index)
                    == selected,
            decreases n - i,
        {
            let ghost prefix = s.subrange(0, i as int);
            let ev = &self.per_pool[k].transfers[i];
            let is_candidate = !ev.used && ev.from == zero && !(ev.to == zero) && ev.log_index
                <= mint_log_index;
            let better = if !have {
                true
            } else {
                ev.log_index > self.per_pool[k].transfers[selected].log_index
            };
            proof {
                assert(s.subrange(0, i + 1).drop_last() =~= prefix);
                assert(s.subrange(0, i + 1).last() == s[i as int]);
            }
            if is_candidate && better {
                selected = i;
                have = true;
            }
            i = i + 1;
        }
        proof {
            assert(s.subrange(0, n as int) =~= s);
        }
        if have {
            let idx = selected;
            let to_out = self.per_pool[k].transfers[idx].to.clone();
            let val = self.per_pool[k].transfers[idx].value;
            self.per_pool[k].transfers[idx].used = true;
            proof {
                let b = best_mint_index(s, mint_log_index);
                assert(final(self).per_pool@[k as int].transfers@ =~= s.update(
                    b,
                    consumed(s[b]),
                ));
            }
            Some((to_out, val))
        } else {
            None
        }
    }

    /// Consumes the matching transfer for a Burn: first the closest
    /// following burn completion (pool to zero address), then, only if
    /// none exists, the closest preceding deposit into the pool. Returns
    /// the transfer's value.
    pub fn consume_burn(&mut self, pool_address: &str, burn_log_index: u64) -> (r: Option<u128>)
        ensures
            ({
                let k = first_pool_index(old(self).per_pool@, pool_address@);
                let pool = normalized(pool_address@);
                &&& k == -1 ==> r is None && final(self).per_pool@ == old(self).per_pool@
                &&& k >= 0 ==> {
                    let s = old(self).per_pool@[k].transfers@;
                    let b1 = best_burn_index(s, pool, burn_log_index);
                    let b2 = best_burn_fallback_index(s, pool, burn_log_index);
                    let b = if b1 >= 0 {
                        b1
                    } else {
                        b2
                    };
                    &&& b == -1 ==> r is None && final(self).per_pool@ == old(self).per_pool@
                    &&& b >= 0 ==> {
                        &&& r == Some(s[b].value)
                        &&& final(self).per_pool@.len() == old(self).per_pool@.len()
                        &&& forall|j: int|
                            0 <= j < old(self).per_pool@.len() && j != k ==> final(self).per_pool@[j] == old(self).per_pool@[j]
                        &&& final(self).per_pool@[k].pool == old(self).per_pool@[k].pool
                        &&& final(self).per_pool@[k].transfers@ == s.update(b, consumed(s[b]))
                    }
                }
            }),
            ctx_no_lock(*old(self)) ==> ctx_no_lock(*final(self)),
    {
        let slot = self.find_pool_slot(pool_address);
        let k = match slot {
            Some(k) => k,
            None => {
                return None;
            },
        };
        let pool_norm = normalize_address(pool_address);
        let zero = normalize_address(ZERO_ADDRESS);
        let ghost s = self.per_pool@[k as int].transfers@;
        let ghost pool = normalized(pool_address@);
        let n = self.per_pool[k].transfers.len();

        // phase one: burn completion (pool to zero) at or after the burn
        let mut selected: usize = 0;
        let mut have: bool = false;
        let mut i: usize = 0;
        proof {
            assert(s.subrange(0, 0) =~= Seq::<TransferEvent>::empty());
        }
        while i < n
            invariant
                0 <= i <= n,
                0 <= k < self.per_pool@.len(),
                n == s.len(),
                s == self.per_pool@[k as int].transfers@,
                zero@ == zero_addr_spec(),
                pool_norm@ == pool,
                !have ==> best_burn_index(s.subrange(0, i as int), pool, burn_log_index) == -1,
                have ==> selected < i && best_burn_index(
                    s.subrange(0, i as int),
                    pool,
                    burn_log_index,
                ) == selected,
            decreases n - i,
        {
            let ghost prefix = s.subrange(0, i as int);
            let ev = &self.per_pool[k].transfers[i];
            let is_candidate = !ev.used && ev.from == pool_norm && ev.to == zero && ev.log_index
                >= burn_log_index;
            let better = if !have {
                true
            } else {
                ev.log_index < self.per_pool[k].transfers[selected].log_index
            };
            proof {
                assert(s.subrange(0, i + 1).drop_last() =~= prefix);
                assert(s.subrange(0, i + 1).last() == s[i as int]);
            }
            if is_candidate && better {
                selected = i;
                have = true;
            }
            i = i + 1;
        }
        proof {
            assert(s.subrange(0, n as int) =~= s);
        }
        if have {
            let idx = selected;
            let val = self.per_pool[k].transfers[idx].value;
            self.per_pool[k].transfers[idx].used = true;
            proof {
                let b = best_burn_index(s, pool, burn_log_index);
                assert(final(self).per_pool@[k as int].transfers@ =~= s.update(
                    b,
                    consumed(s[b]),
                ));
            }
            return Some(val);
        }

        // phase two: deposit into the pool at or before the burn
        let mut selected2: usize = 0;
        let mut have2: bool = false;
        let mut i2: usize = 0;
        proof {
            assert(s.subrange(0, 0) =~= Seq::<TransferEvent>::empty());
        }
        while i2 < n
            invariant
                0 <= i2 <= n,
                0 <= k < self.per_pool@.len(),
                n == s.len(),
                s == self.per_pool@[k as int].transfers@,
                pool_norm@ == pool,
                !have2 ==> best_burn_fallback_index(s.subrange(0, i2 as int), pool, burn_log_index)
                    == -1,
                have2 ==> selected2 < i2 && best_burn_fallback_index(
                    s.subrange(0, i2 as int),
                    pool,
                    burn_log_index,
                ) == selected2,
            decreases n - i2,
        {
            let ghost prefix = s.subrange(0, i2 as int);
            let ev = &self.per_pool[k].transfers[i2];
            let is_candidate = !ev.used && ev.to == pool_norm && ev.log_index <= burn_log_index;
            let better = if !have2 {
                true
            } else {
                ev.log_index > self.per_pool[k].transfers[selected2].log_index
            };
            proof {
                assert(s.subrange(0, i2 + 1).drop_last() =~= prefix);
                assert(s.subrange(0, i2 + 1).last() == s[i2 as int]);
            }
            if is_candidate && better {
                selected2 = i2;
                have2 = true;
            }
            i2 = i2 + 1;
        }
        proof {
            assert(s.subrange(0, n as int) =~= s);
        }
        if have2 {
            let idx = selected2;
            let val = self.per_pool[k].transfers[idx].value;
            self.per_pool[k].transfers[idx].used = true;
            proof {
                let b = best_burn_fallback_index(s, pool, burn_log_index);
                assert(final(self).per_pool@[k as int].transfers@ =~= s.update(
                    b,
                    consumed(s[b]),
                ));
            }
            return Some(val);
        }
        None
    }
}


/// The signed net flow of one swap side: outflow minus inflow, scaled by
/// the token's decimals.
pub open spec fn swap_net_spec(amount_out: u128, amount_in: u128, decimals: u64) -> Option<Dec> {
    if amount_out >= amount_in {
        Dec::spec_from_raw_u((amount_out - amount_in) as u128, decimals as nat)
    } else {
        match Dec::spec_from_raw_u((amount_in - amount_out) as u128, decimals as nat) {
            None => None,
            Some(d) => Some(Dec { num: (-d.num) as i128, den: d.den }),
        }
    }
}

/// The signed net flow, executed.
fn swap_net(amount_out: u128, amount_in: u128, decimals: u64) -> (r: Option<Dec>)
    ensures
        r == swap_net_spec(amount_out, amount_in, decimals),
        r is Some ==> r.unwrap().wf(),
{
    if amount_out >= amount_in {
        let d = Dec::from_raw(amount_out - amount_in, decimals);
        proof {
            if d is Some {
                crate::dec::lemma_from_raw_wf((amount_out - amount_in) as int, decimals as nat);
            }
        }
        d
    } else {
        match Dec::from_raw(amount_in - amount_out, decimals) {
            None => None,
            Some(d) => {
                proof {
                    crate::dec::lemma_from_raw_wf((amount_in - amount_out) as int, decimals as nat);
                }
                Some(d.neg())
            },
        }
    }
}

/// Appends the reserve snapshot of a Sync log; other logs add nothing.
/// The legacy field names are kept: `sqrt_price` carries reserve0 and
/// `tick` carries reserve1.
pub fn extract_pool_sqrt_prices(
    pool_sqrt_prices: &mut Vec<PoolSqrtPrice>,
    log: &LogData,
    pool_address: &str,
)
    ensures
        (match log.event {
            LogEvent::Sync { reserve0, reserve1 } => {
                &&& final(pool_sqrt_prices)@.len() == old(pool_sqrt_prices)@.len() + 1
                &&& forall|j: int|
                    0 <= j < old(pool_sqrt_prices)@.len() ==> final(pool_sqrt_prices)@[j] == old(
                        pool_sqrt_prices,
                    )@[j]
                &&& final(pool_sqrt_prices)@.last()@ == (PoolSqrtPriceV {
                    pool_address: pool_address@,
                    ordinal: log.ordinal,
                    sqrt_price: reserve0,
                    tick: reserve1,
                    initialized: false,
                })
            },
            _ => final(pool_sqrt_prices)@ == old(pool_sqrt_prices)@,
        }),
{
    match &log.event {
        LogEvent::Sync { reserve0, reserve1 } => {
            pool_sqrt_prices.push(
                PoolSqrtPrice {
                    pool_address: pool_address.to_owned(),
                    ordinal: log.ordinal,
                    sqrt_price: *reserve0,
                    tick: *reserve1,
                    initialized: false,
                },
            );
        },
        _ => {},
    }
}

/// Kept for schema compatibility: the V2 extraction derives liquidity
/// from Sync reserves, so this pass adds nothing.
pub fn extract_pool_liquidities(
    pool_liquidities: &mut Vec<PoolLiquidity>,
    log: &LogData,
    pool: &Pool,
)
    ensures
        final(pool_liquidities)@ == old(pool_liquidities)@,
{
}

/// Appends a transaction record when the log is a Swap, Mint or Burn.
pub fn extract_transactions(
    transactions: &mut Vec<Transaction>,
    log: &LogData,
    transaction: &TransactionData,
    timestamp_seconds: u64,
    block_number: u64,
)
    ensures
        (match log.event {
            LogEvent::Swap { .. } | LogEvent::Mint { .. } | LogEvent::Burn { .. } => {
                &&& final(transactions)@.len() == old(transactions)@.len() + 1
                &&& forall|j: int|
                    0 <= j < old(transactions)@.len() ==> final(transactions)@[j] == old(
                        transactions,
                    )@[j]
                &&& final(transactions)@.last()@ == (TransactionV {
                    id: transaction.hash@,
                    block_number,
                    timestamp: timestamp_seconds,
                    log_ordinal: log.ordinal,
                })
            },
            _ => final(transactions)@ == old(transactions)@,
        }),
{
    let add_transaction: bool = match &log.event {
        LogEvent::Swap { .. } => true,
        LogEvent::Mint { .. } => true,
        LogEvent::Burn { .. } => true,
        _ => false,
    };
    if add_transaction {
        transactions.push(
            Transaction {
                id: transaction.hash.clone(),
                block_number,
                timestamp: timestamp_seconds,
                log_ordinal: log.ordinal,
            },
        );
    }
}


/// The transfer a Mint at `mint_log_index` would consume, if any.
pub open spec fn mint_match(
    pre: Seq<PoolTransfers>,
    pool: Seq<char>,
    mint_log_index: u64,
) -> Option<TransferEvent> {
    let k = first_pool_index(pre, pool);
    if k == -1 {
        None
    } else {
        let s = pre[k].transfers@;
        let b = best_mint_index(s, mint_log_index);
        if b == -1 {
            None
        } else {
            Some(s[b])
        }
    }
}

/// The transfer a Burn at `burn_log_index` would consume, if any: the
/// burn completion when one exists, else the fallback deposit.
pub open spec fn burn_match(
    pre: Seq<PoolTransfers>,
    pool: Seq<char>,
    pool_norm: Seq<char>,
    burn_log_index: u64,
) -> Option<TransferEvent> {
    let k = first_pool_index(pre, pool);
    if k == -1 {
        None
    } else {
        let s = pre[k].transfers@;
        let b1 = best_burn_index(s, pool_norm, burn_log_index);
        let b2 = best_burn_fallback_index(s, pool_norm, burn_log_index);
        let b = if b1 >= 0 {
            b1
        } else {
            b2
        };
        if b == -1 {
            None
        } else {
            Some(s[b])
        }
    }
}

/// How the context changes when a Mint consumes its match.
pub open spec fn ctx_after_mint(
    pre: Seq<PoolTransfers>,
    post: Seq<PoolTransfers>,
    pool: Seq<char>,
    mint_log_index: u64,
) -> bool {
    let k = first_pool_index(pre, pool);
    if k == -1 {
        post == pre
    } else {
        let s = pre[k].transfers@;
        let b = best_mint_index(s, mint_log_index);
        if b == -1 {
            post == pre
        } else {
            &&& post.len() == pre.len()
            &&& forall|j: int| 0 <= j < pre.len() && j != k ==> post[j] == pre[j]
            &&& post[k].pool == pre[k].pool
            &&& post[k].transfers@ == s.update(b, consumed(s[b]))
        }
    }
}

/// How the context changes when a Burn consumes its match.
pub open spec fn ctx_after_burn(
    pre: Seq<PoolTransfers>,
    post: Seq<PoolTransfers>,
    pool: Seq<char>,
    pool_norm: Seq<char>,
    burn_log_index: u64,
) -> bool {
    let k = first_pool_index(pre, pool);
    if k == -1 {
        post == pre
    } else {
        let s = pre[k].transfers@;
        let b1 = best_burn_index(s, pool_norm, burn_log_index);
        let b2 = best_burn_fallback_index(s, pool_norm, burn_log_index);
        let b = if b1 >= 0 {
            b1
        } else {
            b2
        };
        if b == -1 {
            post == pre
        } else {
            &&& post.len() == pre.len()
            &&& forall|j: int| 0 <= j < pre.len() && j != k ==> post[j] == pre[j]
            &&& post[k].pool == pre[k].pool
            &&& post[k].transfers@ == s.update(b, consumed(s[b]))
        }
    }
}

/// The envelope fields every produced event carries.
pub open spec fn event_envelope(
    ev: PoolEventV,
    log: LogData,
    transaction_id: Seq<char>,
    pool: Pool,
    timestamp: u64,
    block_number: u64,
) -> bool {
    &&& ev.log_ordinal == log.ordinal
    &&& ev.log_index == log.block_index
    &&& ev.pool_address == pool.address@
    &&& ev.token0 == pool@.token0.unwrap().address
    &&& ev.token1 == pool@.token1.unwrap().address
    &&& ev.fee == pool.fee_tier
    &&& ev.transaction_id == transaction_id
    &&& ev.timestamp == timestamp
    &&& ev.created_at_block_number == block_number
}

/// One position was appended; everything before is untouched.
pub open spec fn pushed_one(pre: Seq<PoolEvent>, post: Seq<PoolEvent>) -> bool {
    &&& post.len() == pre.len() + 1
    &&& forall|j: int| 0 <= j < pre.len() ==> post[j] == pre[j]
}

/// Builds the amount-annotated pool event of one Swap, Mint or Burn log.
/// A Mint claims the closest preceding unused zero-origin LP transfer for
/// its owner and amount (the event sender and zero when none matches); a
/// Burn claims its completion or fallback transfer for the amount. Other
/// logs, and events whose scaled amounts cannot be represented, add
/// nothing and leave the transfer context unchanged.
pub fn extract_pool_events(
    pool_events: &mut Vec<PoolEvent>,
    transaction_id: &str,
    from: &str,
    log: &LogData,
    pool: &Pool,
    timestamp: u64,
    block_number: u64,
    transfer_ctx: &mut TransferContext,
)
    requires
        pool.has_tokens(),
    ensures
        (match log.event {
            LogEvent::Swap { ref sender, ref to, amount0_in, amount0_out, amount1_in, amount1_out } => {
                let n0 = swap_net_spec(amount0_out, amount0_in, pool@.token0.unwrap().decimals);
                let n1 = swap_net_spec(amount1_out, amount1_in, pool@.token1.unwrap().decimals);
                if n0 is Some && n1 is Some {
                    &&& pushed_one(old(pool_events)@, final(pool_events)@)
                    &&& event_envelope(
                        final(pool_events)@.last()@,
                        *log,
                        transaction_id@,
                        *pool,
                        timestamp,
                        block_number,
                    )
                    &&& final(pool_events)@.last()@.kind == (PoolEventTypeV::Swap {
                        sender: sender@,
                        recipient: to@,
                        origin: from@,
                        amount_0: n0.unwrap(),
                        amount_1: n1.unwrap(),
                    })
                    &&& final(transfer_ctx).per_pool@ == old(transfer_ctx).per_pool@
                } else {
                    final(pool_events)@ == old(pool_events)@ && final(transfer_ctx).per_pool@
                        == old(transfer_ctx).per_pool@
                }
            },
            LogEvent::Mint { ref sender, amount0, amount1 } => {
                let a0 = Dec::spec_from_raw_u(amount0, pool@.token0.unwrap().decimals as nat);
                let a1 = Dec::spec_from_raw_u(amount1, pool@.token1.unwrap().decimals as nat);
                if a0 is Some && a1 is Some {
                    let matched = mint_match(
                        old(transfer_ctx).per_pool@,
                        pool.address@,
                        log.block_index,
                    );
                    let owner: Seq<char> = match matched {
                        Some(tev) => if tev.to@.len() == 0 {
                            sender@
                        } else {
                            tev.to@
                        },
                        None => sender@,
                    };
                    let amount: u128 = match matched {
                        Some(tev) => tev.value,
                        None => 0,
                    };
                    &&& pushed_one(old(pool_events)@, final(pool_events)@)
                    &&& event_envelope(
                        final(pool_events)@.last()@,
                        *log,
                        transaction_id@,
                        *pool,
                        timestamp,
                        block_number,
                    )
                    &&& final(pool_events)@.last()@.kind == (PoolEventTypeV::Mint {
                        owner,
                        sender: sender@,
                        origin: from@,
                        amount,
                        amount_0: a0.unwrap(),
                        amount_1: a1.unwrap(),
                    })
                    &&& ctx_after_mint(
                        old(transfer_ctx).per_pool@,
                        final(transfer_ctx).per_pool@,
                        pool.address@,
                        log.block_index,
                    )
                } else {
                    final(pool_events)@ == old(pool_events)@ && final(transfer_ctx).per_pool@
                        == old(transfer_ctx).per_pool@
                }
            },
            LogEvent::Burn { ref sender, amount0, amount1 } => {
                let a0 = Dec::spec_from_raw_u(amount0, pool@.token0.unwrap().decimals as nat);
                let a1 = Dec::spec_from_raw_u(amount1, pool@.token1.unwrap().decimals as nat);
                if a0 is Some && a1 is Some {
                    let matched = burn_match(
                        old(transfer_ctx).per_pool@,
                        pool.address@,
                        normalized(pool.address@),
                        log.block_index,
                    );
                    let amount: u128 = match matched {
                        Some(tev) => tev.value,
                        None => 0,
                    };
                    &&& pushed_one(old(pool_events)@, final(pool_events)@)
                    &&& event_envelope(
                        final(pool_events)@.last()@,
                        *log,
                        transaction_id@,
                        *pool,
                        timestamp,
                        block_number,
                    )
                    &&& final(pool_events)@.last()@.kind == (PoolEventTypeV::Burn {
                        owner: sender@,
                        origin: from@,
                        amount,
                        amount_0: a0.unwrap(),
                        amount_1: a1.unwrap(),
                    })
                    &&& ctx_after_burn(
                        old(transfer_ctx).per_pool@,
                        final(transfer_ctx).per_pool@,
                        pool.address@,
                        normalized(pool.address@),
                        log.block_index,
                    )
                } else {
                    final(pool_events)@ == old(pool_events)@ && final(transfer_ctx).per_pool@
                        == old(transfer_ctx).per_pool@
                }
            },
            _ => final(pool_events)@ == old(pool_events)@ && final(transfer_ctx).per_pool@ == old(
                transfer_ctx,
            ).per_pool@,
        }),
        ctx_no_lock(*old(transfer_ctx)) ==> ctx_no_lock(*final(transfer_ctx)),
{
    let token0 = pool.token0_ref();
    let token1 = pool.token1_ref();
    match &log.event {
        LogEvent::Swap { sender, to, amount0_in, amount0_out, amount1_in, amount1_out } => {
            let n0 = match swap_net(*amount0_out, *amount0_in, token0.decimals) {
                None => {
                    return ;
                },
                Some(v) => v,
            };
            let n1 = match swap_net(*amount1_out, *amount1_in, token1.decimals) {
                None => {
                    return ;
                },
                Some(v) => v,
            };
            pool_events.push(
                PoolEvent {
                    log_ordinal: log.ordinal,
                    log_index: log.block_index,
                    pool_address: pool.address.clone(),
                    token0: token0.address.clone(),
                    token1: token1.address.clone(),
                    fee: pool.fee_tier,
                    transaction_id: transaction_id.to_owned(),
                    timestamp,
                    created_at_block_number: block_number,
                    kind: PoolEventType::Swap {
                        sender: sender.clone(),
                        recipient: to.clone(),
                        origin: from.to_owned(),
                        amount_0: n0,
                        amount_1: n1,
                    },
                },
            );
            proof {
                let ev = pool_events@.last();
                assert(ev@.kind == (PoolEventTypeV::Swap {
                    sender: sender@,
                    recipient: to@,
                    origin: from@,
                    amount_0: n0,
                    amount_1: n1,
                }));
                assert(ev@.pool_address == pool.address@);
                assert(ev@.token0 == pool@.token0.unwrap().address);
                assert(ev@.token1 == pool@.token1.unwrap().address);
                assert(ev@.transaction_id == transaction_id@);
            }
        },
        LogEvent::Mint { sender, amount0, amount1 } => {
            let a0 = match Dec::from_raw(*amount0, token0.decimals) {
                None => {
                    return ;
                },
                Some(v) => v,
            };
            let a1 = match Dec::from_raw(*amount1, token1.decimals) {
                None => {
                    return ;
                },
                Some(v) => v,
            };
            let consumed_match = transfer_ctx.consume_mint(
                pool.address.as_str(),
                log.block_index,
            );
            let (owner, amount): (String, u128) = match consumed_match {
                Some((to, value)) => {
                    if to.as_str().is_empty() {
                        (sender.clone(), value)
                    } else {
                        (to, value)
                    }
                },
                None => (sender.clone(), 0),
            };
            pool_events.push(
                PoolEvent {
                    log_ordinal: log.ordinal,
                    log_index: log.block_index,
                    pool_address: pool.address.clone(),
                    token0: token0.address.clone(),
                    token1: token1.address.clone(),
                    fee: pool.fee_tier,
                    transaction_id: transaction_id.to_owned(),
                    timestamp,
                    created_at_block_number: block_number,
                    kind: PoolEventType::Mint {
                        owner: owner.clone(),
                        sender: sender.clone(),
                        origin: from.to_owned(),
                        amount,
                        amount_0: a0,
                        amount_1: a1,
                    },
                },
            );
            proof {
                let pre = old(transfer_ctx).per_pool@;
                let pooladdr = pool.address@;
                lemma_first_pool_index(pre, pooladdr);
                let k = first_pool_index(pre, pooladdr);
                let matched = mint_match(pre, pooladdr, log.block_index);
                if k >= 0 {
                    let s0 = pre[k].transfers@;
                    lemma_best_mint_index_candidate(s0, log.block_index);
                    let b = best_mint_index(s0, log.block_index);
                    if b >= 0 {
                        assert(matched == Some(s0[b]));
                    } else {
                        assert(matched is None);
                    }
                } else {
                    assert(matched is None);
                }
                assert(ctx_after_mint(
                    pre,
                    transfer_ctx.per_pool@,
                    pooladdr,
                    log.block_index,
                ));
                let spec_owner: Seq<char> = match matched {
                    Some(tev) => if tev.to@.len() == 0 {
                        sender@
                    } else {
                        tev.to@
                    },
                    None => sender@,
                };
                let spec_amount: u128 = match matched {
                    Some(tev) => tev.value,
                    None => 0,
                };
                assert(owner@ == spec_owner);
                assert(amount == spec_amount);
                assert(pool_events@.last()@.kind == (PoolEventTypeV::Mint {
                    owner: spec_owner,
                    sender: sender@,
                    origin: from@,
                    amount: spec_amount,
                    amount_0: a0,
                    amount_1: a1,
                }));
            }
        },
        LogEvent::Burn { sender, amount0, amount1 } => {
            let a0 = match Dec::from_raw(*amount0, token0.decimals) {
                None => {
                    return ;
                },
                Some(v) => v,
            };
            let a1 = match Dec::from_raw(*amount1, token1.decimals) {
                None => {
                    return ;
                },
                Some(v) => v,
            };
            let consumed_value = transfer_ctx.consume_burn(
                pool.address.as_str(),
                log.block_index,
            );
            let amount: u128 = match consumed_value {
                Some(value) => value,
                None => 0,
            };
            pool_events.push(
                PoolEvent {
                    log_ordinal: log.ordinal,
                    log_index: log.block_index,
                    pool_address: pool.address.clone(),
                    token0: token0.address.clone(),
                    token1: token1.address.clone(),
                    fee: pool.fee_tier,
                    transaction_id: transaction_id.to_owned(),
                    timestamp,
                    created_at_block_number: block_number,
                    kind: PoolEventType::Burn {
                        owner: sender.clone(),
                        origin: from.to_owned(),
                        amount,
                        amount_0: a0,
                        amount_1: a1,
                    },
                },
            );
            proof {
                let pre = old(transfer_ctx).per_pool@;
                let pooladdr = pool.address@;
                let pool_norm = normalized(pool.address@);
                lemma_first_pool_index(pre, pooladdr);
                let k = first_pool_index(pre, pooladdr);
                let matched = burn_match(pre, pooladdr, pool_norm, log.block_index);
                if k >= 0 {
                    let s0 = pre[k].transfers@;
                    lemma_best_burn_index_candidate(s0, pool_norm, log.block_index);
                    lemma_best_burn_fallback_index_candidate(s0, pool_norm, log.block_index);
                    let b1 = best_burn_index(s0, pool_norm, log.block_index);
                    let b2 = best_burn_fallback_index(s0, pool_norm, log.block_index);
                    let b = if b1 >= 0 {
                        b1
                    } else {
                        b2
                    };
                    if b >= 0 {
                        assert(matched == Some(s0[b]));
                    } else {
                        assert(matched is None);
                    }
                } else {
                    assert(matched is None);
                }
                assert(ctx_after_burn(
                    pre,
                    transfer_ctx.per_pool@,
                    pooladdr,
                    pool_norm,
                    log.block_index,
                ));
                let spec_amount: u128 = match matched {
                    Some(tev) => tev.value,
                    None => 0,
                };
                assert(amount == spec_amount);
                assert(pool_events@.last()@.kind == (PoolEventTypeV::Burn {
                    owner: sender@,
                    origin: from@,
                    amount: spec_amount,
                    amount_0: a0,
                    amount_1: a1,
                }));
            }
        },
        _ => {},
    }
}

} // verus!
