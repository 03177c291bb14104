//! The ordinal-versioned key-value store model. Writes append to a log of
//! entries; reads return the latest write for a key, optionally restricted
//! to writes at or below an ordinal (deterministic replay within a block);
//! bucket deletion drops every entry of one window bucket. The accumulate,
//! minimum and maximum writes combine with the latest value, as the
//! downstream versioned store does.

use vstd::prelude::*;
use crate::dec::Dec;
use crate::keys::{Key, KeyV, Table};

verus! {

/// One write: a key, the ordinal of the write, the value written.
pub struct Entry<T> {
    pub key: Key,
    pub ordinal: u64,
    pub value: T,
}

/// The mathematical form of a write.
pub struct EntryV<T> {
    pub key: KeyV,
    pub ordinal: u64,
    pub value: T,
}

impl<T> View for Entry<T> {
    type V = EntryV<T>;

    open spec fn view(&self) -> EntryV<T> {
        EntryV { key: self.key@, ordinal: self.ordinal, value: self.value }
    }
}

/// An append-only write log with bucket deletion. Its mathematical form is
/// the sequence of write views, oldest first.
pub struct Store<T> {
    pub entries: Vec<Entry<T>>,
}

impl<T> View for Store<T> {
    type V = Seq<EntryV<T>>;

    open spec fn view(&self) -> Seq<EntryV<T>> {
        self.entries@.map_values(|e: Entry<T>| e@)
    }
}

/// The position of the last entry for `key`, or -1.
pub open spec fn last_match<T>(s: Seq<EntryV<T>>, key: KeyV) -> int
    decreases s.len(),
{
    if s.len() == 0 {
        -1
    } else if s.last().key == key {
        s.len() - 1
    } else {
        last_match(s.drop_last(), key)
    }
}

/// The position of the last entry for `key` with ordinal at most `ord`,
/// or -1.
pub open spec fn last_match_at<T>(s: Seq<EntryV<T>>, key: KeyV, ord: u64) -> int
    decreases s.len(),
{
    if s.len() == 0 {
        -1
    } else if s.last().key == key && s.last().ordinal <= ord {
        s.len() - 1
    } else {
        last_match_at(s.drop_last(), key, ord)
    }
}

/// The latest value for `key`.
pub open spec fn get_last_spec<T>(s: Seq<EntryV<T>>, key: KeyV) -> Option<T> {
    let j = last_match(s, key);
    if j >= 0 {
        Some(s[j].value)
    } else {
        None
    }
}

/// The value for `key` as of ordinal `ord`.
pub open spec fn get_at_spec<T>(s: Seq<EntryV<T>>, key: KeyV, ord: u64) -> Option<T> {
    let j = last_match_at(s, key, ord);
    if j >= 0 {
        Some(s[j].value)
    } else {
        None
    }
}

/// The log without the entries of one window bucket.
pub open spec fn remove_bucket_spec<T>(s: Seq<EntryV<T>>, table: Table, bucket: u64) -> Seq<
    EntryV<T>,
>
    decreases s.len(),
{
    if s.len() == 0 {
        s
    } else {
        let rest = remove_bucket_spec(s.drop_last(), table, bucket);
        if s.last().key.table == table && s.last().key.bucket == bucket {
            rest
        } else {
            rest.push(s.last())
        }
    }
}

/// What [`last_match`] returns: -1 when nothing matches, else the last
/// matching position.
pub proof fn lemma_last_match<T>(s: Seq<EntryV<T>>, key: KeyV)
    ensures
        last_match(s, key) >= -1,
        last_match(s, key) == -1 ==> forall|j: int|
            0 <= j < s.len() ==> (#[trigger] s[j].key) != key,
        last_match(s, key) >= 0 ==> {
            let k = last_match(s, key);
            &&& k < s.len()
            &&& s[k].key == key
            &&& forall|j: int| k < j < s.len() ==> (#[trigger] s[j].key) != key
        },
    decreases s.len(),
{
    if s.len() > 0 {
        lemma_last_match(s.drop_last(), key);
        assert forall|j: int| 0 <= j < s.len() - 1 implies s.drop_last()[j] == s[j] by {}
    }
}

/// What [`last_match_at`] returns.
pub proof fn lemma_last_match_at<T>(s: Seq<EntryV<T>>, key: KeyV, ord: u64)
    ensures
        last_match_at(s, key, ord) >= -1,
        last_match_at(s, key, ord) == -1 ==> forall|j: int|
            0 <= j < s.len() ==> !((#[trigger] s[j].key) == key && s[j].ordinal <= ord),
        last_match_at(s, key, ord) >= 0 ==> {
            let k = last_match_at(s, key, ord);
            &&& k < s.len()
            &&& s[k].key == key
            &&& s[k].ordinal <= ord
            &&& forall|j: int|
                k < j < s.len() ==> !((#[trigger] s[j].key) == key && s[j].ordinal <= ord)
        },
    decreases s.len(),
{
    if s.len() > 0 {
        lemma_last_match_at(s.drop_last(), key, ord);
        assert forall|j: int| 0 <= j < s.len() - 1 implies s.drop_last()[j] == s[j] by {}
    }
}

/// After removing a bucket, no entry of that bucket remains, every other
/// entry survives, and every remaining entry was present before.
pub proof fn lemma_remove_bucket<T>(s: Seq<EntryV<T>>, table: Table, bucket: u64)
    ensures
        forall|j: int|
            0 <= j < remove_bucket_spec(s, table, bucket).len() ==> !(
            #[trigger] remove_bucket_spec(s, table, bucket)[j].key.table == table
                && remove_bucket_spec(s, table, bucket)[j].key.bucket == bucket),
        forall|j: int|
            0 <= j < remove_bucket_spec(s, table, bucket).len() ==> exists|i: int|
                0 <= i < s.len() && #[trigger] remove_bucket_spec(s, table, bucket)[j] == s[i],
        forall|i: int|
            0 <= i < s.len() && !(#[trigger] s[i].key.table == table && s[i].key.bucket == bucket)
                ==> exists|j: int|
                0 <= j < remove_bucket_spec(s, table, bucket).len() && remove_bucket_spec(
                    s,
                    table,
                    bucket,
                )[j] == s[i],
    decreases s.len(),
{
    if s.len() > 0 {
        lemma_remove_bucket(s.drop_last(), table, bucket);
        let rest = remove_bucket_spec(s.drop_last(), table, bucket);
        let whole = remove_bucket_spec(s, table, bucket);
        assert forall|i: int|
            0 <= i < s.len() && !(#[trigger] s[i].key.table == table && s[i].key.bucket
                == bucket) implies exists|j: int|
            0 <= j < whole.len() && whole[j] == s[i] by {
            if i == s.len() - 1 {
                assert(whole.last() == s[i]);
                assert(whole[whole.len() - 1] == s[i]);
            } else {
                assert(s.drop_last()[i] == s[i]);
                let j = choose|j: int| 0 <= j < rest.len() && rest[j] == s.drop_last()[i];
                assert(whole[j] == s[i]);
            }
        }
    }
}

/// Pruning a bucket keeps stored numbers well-formed.
pub proof fn lemma_remove_bucket_wf(s: Seq<EntryV<Dec>>, table: Table, bucket: u64)
    requires
        store_values_wf(s),
    ensures
        store_values_wf(remove_bucket_spec(s, table, bucket)),
{
    lemma_remove_bucket(s, table, bucket);
    let r = remove_bucket_spec(s, table, bucket);
    assert forall|j: int| 0 <= j < r.len() implies (#[trigger] r[j].value).wf() by {
        let i = choose|i: int| 0 <= i < s.len() && #[trigger] r[j] == s[i];
        assert(s[i].value.wf());
    }
}

impl<T> Store<T> {
    /// An empty store.
    pub fn new_store() -> (r: Store<T>)
        ensures
            r@.len() == 0,
    {
        Store { entries: Vec::new() }
    }

    /// Writes `value` under `key` at `ordinal`.
    pub fn set(&mut self, key: Key, ordinal: u64, value: T)
        ensures
            final(self)@ == old(self)@.push(EntryV { key: key@, ordinal, value }),
    {
        let ghost before = self@;
        self.entries.push(Entry { key, ordinal, value });
        proof {
            assert(final(self)@ =~= before.push(EntryV { key: key@, ordinal, value }));
        }
    }

    /// The latest value written under `key`, regardless of ordinal.
    pub fn get_last(&self, key: &Key) -> (r: Option<&T>)
        ensures
            match r {
                Some(v) => get_last_spec(self@, key@) == Some(*v),
                None => get_last_spec(self@, key@) is None,
            },
    {
        proof {
            lemma_last_match(self@, key@);
        }
        let n = self.entries.len();
        let mut i: usize = n;
        while i > 0
            invariant
                0 <= i <= n,
                n == self.entries@.len(),
                n == self@.len(),
                forall|j: int| i <= j < n ==> (#[trigger] self@[j].key) != key@,
            decreases i,
        {
            i = i - 1;
            proof {
                assert(self@[i as int] == self.entries@[i as int]@);
            }
            if self.entries[i].key.matches(key) {
                proof {
                    lemma_last_match(self@, key@);
                    let lm = last_match(self@, key@);
                    assert(self@[i as int].key == key@);
                    assert(lm >= 0);
                    assert(lm == i as int);
                }
                return Some(&self.entries[i].value);
            }
        }
        None
    }

    /// The value visible under `key` as of ordinal `ordinal`.
    pub fn get_at(&self, key: &Key, ordinal: u64) -> (r: Option<&T>)
        ensures
            match r {
                Some(v) => get_at_spec(self@, key@, ordinal) == Some(*v),
                None => get_at_spec(self@, key@, ordinal) is None,
            },
    {
        proof {
            lemma_last_match_at(self@, key@, ordinal);
        }
        let n = self.entries.len();
        let mut i: usize = n;
        while i > 0
            invariant
                0 <= i <= n,
                n == self.entries@.len(),
                n == self@.len(),
                forall|j: int|
                    i <= j < n ==> !((#[trigger] self@[j].key) == key@ && self@[j].ordinal
                        <= ordinal),
            decreases i,
        {
            i = i - 1;
            proof {
                assert(self@[i as int] == self.entries@[i as int]@);
            }
            if self.entries[i].key.matches(key) && self.entries[i].ordinal <= ordinal {
                proof {
                    lemma_last_match_at(self@, key@, ordinal);
                    let lm = last_match_at(self@, key@, ordinal);
                    assert(self@[i as int].key == key@);
                    assert(lm >= 0);
                    assert(lm == i as int);
                }
                return Some(&self.entries[i].value);
            }
        }
        None
    }

    /// Deletes every entry of one window bucket (the retention prune).
    pub fn delete_bucket(&mut self, table: Table, bucket: u64)
        ensures
            final(self)@ == remove_bucket_spec(old(self)@, table, bucket),
    {
        let ghost orig = self@;
        let mut kept: Vec<Entry<T>> = Vec::new();
        proof {
            assert(orig.subrange(0, 0) =~= Seq::<EntryV<T>>::empty());
            assert(kept@.map_values(|e: Entry<T>| e@) =~= remove_bucket_spec(
                orig.subrange(0, 0),
                table,
                bucket,
            ));
        }
        let mut processed: usize = 0;
        let total = self.entries.len();
        proof {
            assert(orig.len() == total);
        }
        while processed < total
            invariant
                0 <= processed <= total,
                total == orig.len(),
                self.entries@.len() == total - processed,
                self.entries@.map_values(|e: Entry<T>| e@) =~= orig.skip(processed as int),
                kept@.map_values(|e: Entry<T>| e@) =~= remove_bucket_spec(
                    orig.subrange(0, processed as int),
                    table,
                    bucket,
                ),
            decreases total - processed,
        {
            let ghost kept_before = kept@.map_values(|e: Entry<T>| e@);
            let ghost entseq = self.entries@;
            let e = self.entries.remove(0);
            proof {
                assert(entseq.map_values(|e2: Entry<T>| e2@)[0] == entseq[0]@);
                assert(e@ == orig.skip(processed as int)[0]);
                assert(orig.skip(processed as int)[0] == orig[processed as int]);
                assert(self.entries@ =~= entseq.skip(1));
                assert(self.entries@.len() == total - processed - 1);
                assert forall|j2: int| 0 <= j2 < self.entries@.len() implies self.entries@.map_values(
                    |e2: Entry<T>| e2@,
                )[j2] == #[trigger] orig.skip(processed + 1)[j2] by {
                    assert(self.entries@.map_values(|e2: Entry<T>| e2@)[j2] == self.entries@[j2]@);
                    assert(self.entries@[j2] == entseq[j2 + 1]);
                    assert(entseq.map_values(|e2: Entry<T>| e2@)[j2 + 1] == entseq[j2 + 1]@);
                    assert(orig.skip(processed as int)[j2 + 1] == orig[processed + 1 + j2]);
                    assert(orig.skip(processed + 1)[j2] == orig[processed + 1 + j2]);
                }
                assert(self.entries@.map_values(|e2: Entry<T>| e2@) =~= orig.skip(
                    processed + 1,
                ));
                assert(orig.subrange(0, processed + 1).drop_last() =~= orig.subrange(
                    0,
                    processed as int,
                ));
                assert(orig.subrange(0, processed + 1).last() == orig[processed as int]);
            }
            let keep = !e.key.in_bucket(table, bucket);
            if keep {
                kept.push(e);
                proof {
                    assert(kept@.map_values(|e2: Entry<T>| e2@) =~= kept_before.push(
                        orig[processed as int],
                    ));
                }
            }
            processed = processed + 1;
        }
        proof {
            assert(orig.subrange(0, total as int) =~= orig);
        }
        self.entries = kept;
    }
}

/// All stored numbers are well-formed.
pub open spec fn store_values_wf(s: Seq<EntryV<Dec>>) -> bool {
    forall|j: int| 0 <= j < s.len() ==> (#[trigger] s[j].value).wf()
}

/// A value read from a store of well-formed numbers is well-formed.
pub proof fn lemma_get_at_wf(s: Seq<EntryV<Dec>>, key: KeyV, ord: u64)
    requires
        store_values_wf(s),
        get_at_spec(s, key, ord) is Some,
    ensures
        get_at_spec(s, key, ord).unwrap().wf(),
{
    lemma_last_match_at(s, key, ord);
}

/// The latest value read from a store of well-formed numbers is
/// well-formed.
pub proof fn lemma_get_last_wf(s: Seq<EntryV<Dec>>, key: KeyV)
    requires
        store_values_wf(s),
        get_last_spec(s, key) is Some,
    ensures
        get_last_spec(s, key).unwrap().wf(),
{
    lemma_last_match(s, key);
}

/// Model of [`Store::add_value`]: combine with the latest value (zero when
/// absent); when the exact sum leaves the representable range, the write
/// is dropped.
pub open spec fn add_model(s: Seq<EntryV<Dec>>, key: KeyV, ordinal: u64, delta: Dec) -> Seq<
    EntryV<Dec>,
> {
    let base = match get_last_spec(s, key) {
        Some(v) => v,
        None => Dec { num: 0, den: 1 },
    };
    match base.spec_add(delta) {
        Some(nv) => s.push(EntryV { key, ordinal, value: nv }),
        None => s,
    }
}

/// Model of [`Store::min_value`]: keep the smaller of the latest value and
/// the new one.
pub open spec fn min_model(s: Seq<EntryV<Dec>>, key: KeyV, ordinal: u64, value: Dec) -> Seq<
    EntryV<Dec>,
> {
    let nv = match get_last_spec(s, key) {
        Some(b) => if value.vlt(b) {
            value
        } else {
            b
        },
        None => value,
    };
    s.push(EntryV { key, ordinal, value: nv })
}

/// Model of [`Store::max_value`]: keep the larger of the latest value and
/// the new one.
pub open spec fn max_model(s: Seq<EntryV<Dec>>, key: KeyV, ordinal: u64, value: Dec) -> Seq<
    EntryV<Dec>,
> {
    let nv = match get_last_spec(s, key) {
        Some(b) => if b.vlt(value) {
            value
        } else {
            b
        },
        None => value,
    };
    s.push(EntryV { key, ordinal, value: nv })
}

impl Store<Dec> {
    /// Accumulates `delta` onto the latest value under `key` (commutative
    /// up to representability; a sum that cannot be represented is
    /// dropped, leaving the store unchanged).
    pub fn add_value(&mut self, key: Key, ordinal: u64, delta: Dec) -> (written: bool)
        requires
            store_values_wf(old(self)@),
            delta.wf(),
        ensures
            final(self)@ == add_model(old(self)@, key@, ordinal, delta),
            store_values_wf(final(self)@),
            written == (final(self)@.len() == old(self)@.len() + 1),
    {
        proof {
            lemma_last_match(self@, key@);
        }
        let base: Dec = match self.get_last(&key) {
            Some(v) => *v,
            None => Dec::zero(),
        };
        let ghost before = self@;
        match base.add(delta) {
            Some(nv) => {
                proof {
                    crate::dec::lemma_add_frac(base, delta);
                }
                self.entries.push(Entry { key, ordinal, value: nv });
                proof {
                    assert(final(self)@ =~= before.push(
                        EntryV { key: key@, ordinal, value: nv },
                    ));
                }
                true
            },
            None => false,
        }
    }

    /// Lowers the running minimum under `key` to `value` if it is smaller.
    pub fn min_value(&mut self, key: Key, ordinal: u64, value: Dec)
        requires
            store_values_wf(old(self)@),
            value.wf(),
        ensures
            final(self)@ == min_model(old(self)@, key@, ordinal, value),
            store_values_wf(final(self)@),
    {
        proof {
            lemma_last_match(self@, key@);
        }
        let nv: Dec = match self.get_last(&key) {
            Some(b) => if value.lt(b) {
                value
            } else {
                *b
            },
            None => value,
        };
        let ghost before = self@;
        self.entries.push(Entry { key, ordinal, value: nv });
        proof {
            assert(final(self)@ =~= before.push(EntryV { key: key@, ordinal, value: nv }));
        }
    }

    /// Raises the running maximum under `key` to `value` if it is larger.
    pub fn max_value(&mut self, key: Key, ordinal: u64, value: Dec)
        requires
            store_values_wf(old(self)@),
            value.wf(),
        ensures
            final(self)@ == max_model(old(self)@, key@, ordinal, value),
            store_values_wf(final(self)@),
    {
        proof {
            lemma_last_match(self@, key@);
        }
        let nv: Dec = match self.get_last(&key) {
            Some(b) => if b.lt(&value) {
                value
            } else {
                *b
            },
            None => value,
        };
        let ghost before = self@;
        self.entries.push(Entry { key, ordinal, value: nv });
        proof {
            assert(final(self)@ =~= before.push(EntryV { key: key@, ordinal, value: nv }));
        }
    }
}

/// The views of a key list.
pub open spec fn key_views(keys: Seq<Key>) -> Seq<KeyV> {
    keys.map_values(|k: Key| k@)
}

/// Model of [`Store::set_many`]: one write per key, in list order.
pub open spec fn set_many_model(s: Seq<EntryV<Dec>>, keys: Seq<KeyV>, ordinal: u64, value: Dec) -> Seq<
    EntryV<Dec>,
>
    decreases keys.len(),
{
    if keys.len() == 0 {
        s
    } else {
        set_many_model(s.push(EntryV { key: keys[0], ordinal, value }), keys.skip(1), ordinal, value)
    }
}

/// Model of [`Store::add_many`]: one accumulate per key, in list order.
pub open spec fn add_many_model(s: Seq<EntryV<Dec>>, keys: Seq<KeyV>, ordinal: u64, delta: Dec) -> Seq<
    EntryV<Dec>,
>
    decreases keys.len(),
{
    if keys.len() == 0 {
        s
    } else {
        add_many_model(add_model(s, keys[0], ordinal, delta), keys.skip(1), ordinal, delta)
    }
}

/// `set_many_model` keeps well-formed values well-formed.
pub proof fn lemma_set_many_wf(s: Seq<EntryV<Dec>>, keys: Seq<KeyV>, ordinal: u64, value: Dec)
    requires
        store_values_wf(s),
        value.wf(),
    ensures
        store_values_wf(set_many_model(s, keys, ordinal, value)),
    decreases keys.len(),
{
    if keys.len() > 0 {
        let s2 = s.push(EntryV { key: keys[0], ordinal, value });
        assert(store_values_wf(s2));
        lemma_set_many_wf(s2, keys.skip(1), ordinal, value);
    }
}

/// `add_many_model` keeps well-formed values well-formed.
pub proof fn lemma_add_many_wf(s: Seq<EntryV<Dec>>, keys: Seq<KeyV>, ordinal: u64, delta: Dec)
    requires
        store_values_wf(s),
        delta.wf(),
    ensures
        store_values_wf(add_many_model(s, keys, ordinal, delta)),
    decreases keys.len(),
{
    if keys.len() > 0 {
        let base = match get_last_spec(s, keys[0]) {
            Some(v) => v,
            None => Dec { num: 0, den: 1 },
        };
        lemma_last_match(s, keys[0]);
        let s2 = add_model(s, keys[0], ordinal, delta);
        match base.spec_add(delta) {
            Some(nv) => {
                crate::dec::lemma_add_frac(base, delta);
                assert(store_values_wf(s2));
            },
            None => {},
        }
        lemma_add_many_wf(s2, keys.skip(1), ordinal, delta);
    }
}

impl Store<Dec> {
    /// Writes the same value under every key of the list, in order.
    pub fn set_many(&mut self, keys: Vec<Key>, ordinal: u64, value: Dec)
        requires
            store_values_wf(old(self)@),
            value.wf(),
        ensures
            final(self)@ == set_many_model(old(self)@, key_views(keys@), ordinal, value),
            store_values_wf(final(self)@),
    {
        proof {
            lemma_set_many_wf(self@, key_views(keys@), ordinal, value);
        }
        let ghost all = key_views(keys@);
        proof {
            assert(all.skip(0) =~= all);
        }
        let n = keys.len();
        let mut i: usize = 0;
        while i < n
            invariant
                0 <= i <= n,
                n == keys@.len(),
                all == key_views(keys@),
                value.wf(),
                store_values_wf(self@),
                set_many_model(self@, all.skip(i as int), ordinal, value) == set_many_model(
                    old(self)@,
                    all,
                    ordinal,
                    value,
                ),
            decreases n - i,
        {
            let ghost before = self@;
            let k = keys[i].dup();
            proof {
                assert(k@ == keys@[i as int]@);
                assert(all.skip(i as int)[0] == keys@[i as int]@);
            }
            self.set(k, ordinal, value);
            proof {
                assert(self@ == before.push(EntryV { key: all.skip(i as int)[0], ordinal, value }));
                assert(all.skip(i as int).skip(1) =~= all.skip(i + 1));
            }
            i = i + 1;
        }
        proof {
            assert(all.skip(n as int) =~= Seq::<KeyV>::empty());
        }
    }

    /// Accumulates the same delta under every key of the list, in order.
    pub fn add_many(&mut self, keys: Vec<Key>, ordinal: u64, delta: Dec)
        requires
            store_values_wf(old(self)@),
            delta.wf(),
        ensures
            final(self)@ == add_many_model(old(self)@, key_views(keys@), ordinal, delta),
            store_values_wf(final(self)@),
    {
        proof {
            lemma_add_many_wf(self@, key_views(keys@), ordinal, delta);
        }
        let ghost all = key_views(keys@);
        proof {
            assert(all.skip(0) =~= all);
        }
        let n = keys.len();
        let mut i: usize = 0;
        while i < n
            invariant
                0 <= i <= n,
                n == keys@.len(),
                all == key_views(keys@),
                delta.wf(),
                store_values_wf(self@),
                add_many_model(self@, all.skip(i as int), ordinal, delta) == add_many_model(
                    old(self)@,
                    all,
                    ordinal,
                    delta,
                ),
            decreases n - i,
        {
            let ghost before = self@;
            let k = keys[i].dup();
            proof {
                assert(k@ == keys@[i as int]@);
                assert(all.skip(i as int)[0] == keys@[i as int]@);
            }
            self.add_value(k, ordinal, delta);
            proof {
                assert(self@ == add_model(before, all.skip(i as int)[0], ordinal, delta));
                assert(all.skip(i as int).skip(1) =~= all.skip(i + 1));
            }
            i = i + 1;
        }
        proof {
            assert(all.skip(n as int) =~= Seq::<KeyV>::empty());
        }
    }
}

/// A write operation kind, as reported in a change feed.
#[derive(Clone, Copy, Debug, PartialEq, Eq, Structural)]
pub enum DeltaOp {
    Create,
    Update,
    Delete,
}

/// One observed change: the key, the write ordinal, the value before and
/// after, and whether the write created, updated or deleted the key.
pub struct Delta {
    pub key: Key,
    pub ordinal: u64,
    pub old_value: Dec,
    pub new_value: Dec,
    pub operation: DeltaOp,
}

/// The mathematical form of a change.
pub struct DeltaV {
    pub key: KeyV,
    pub ordinal: u64,
    pub old_value: Dec,
    pub new_value: Dec,
    pub operation: DeltaOp,
}

impl View for Delta {
    type V = DeltaV;

    open spec fn view(&self) -> DeltaV {
        DeltaV {
            key: self.key@,
            ordinal: self.ordinal,
            old_value: self.old_value,
            new_value: self.new_value,
            operation: self.operation,
        }
    }
}

/// The change that entry `i` of a write log represents: old value taken
/// from the latest earlier write of the same key (zero and `Create` when
/// there is none).
pub open spec fn delta_of(s: Seq<EntryV<Dec>>, i: int) -> DeltaV {
    let prior = get_last_spec(s.subrange(0, i), s[i].key);
    DeltaV {
        key: s[i].key,
        ordinal: s[i].ordinal,
        old_value: match prior {
            Some(v) => v,
            None => Dec { num: 0, den: 1 },
        },
        new_value: s[i].value,
        operation: match prior {
            Some(_) => DeltaOp::Update,
            None => DeltaOp::Create,
        },
    }
}

impl Store<Dec> {
    /// The latest value written under `key` among the first `limit`
    /// entries.
    fn latest_before(&self, key: &Key, limit: usize) -> (r: Option<Dec>)
        requires
            limit <= self@.len(),
        ensures
            r == get_last_spec(self@.subrange(0, limit as int), key@),
    {
        let ghost prefix = self@.subrange(0, limit as int);
        proof {
            lemma_last_match(prefix, key@);
        }
        let mut i: usize = limit;
        while i > 0
            invariant
                0 <= i <= limit <= self@.len(),
                self@.len() == self.entries@.len(),
                prefix == self@.subrange(0, limit as int),
                forall|j: int| i <= j < limit ==> (#[trigger] prefix[j].key) != key@,
            decreases i,
        {
            i = i - 1;
            proof {
                assert(prefix[i as int] == self@[i as int]);
                assert(self@[i as int] == self.entries@[i as int]@);
            }
            if self.entries[i].key.matches(key) {
                proof {
                    lemma_last_match(prefix, key@);
                    let lm = last_match(prefix, key@);
                    assert(prefix[i as int].key == key@);
                    assert(lm == i as int);
                }
                return Some(self.entries[i].value);
            }
        }
        None
    }

    /// The change feed of this store's writes, oldest first.
    pub fn collect_deltas(&self) -> (r: Vec<Delta>)
        ensures
            r@.len() == self@.len(),
            forall|i: int| 0 <= i < r@.len() ==> (#[trigger] r@[i])@ == delta_of(self@, i),
    {
        let n = self.entries.len();
        let mut out: Vec<Delta> = Vec::new();
        let mut i: usize = 0;
        while i < n
            invariant
                0 <= i <= n,
                n == self.entries@.len(),
                n == self@.len(),
                out@.len() == i,
                forall|j: int| 0 <= j < i ==> (#[trigger] out@[j])@ == delta_of(self@, j),
            decreases n - i,
        {
            proof {
                assert(self@[i as int] == self.entries@[i as int]@);
            }
            let prior = self.latest_before(&self.entries[i].key, i);
            let e = &self.entries[i];
            let d = match prior {
                Some(v) => Delta {
                    key: e.key.dup(),
                    ordinal: e.ordinal,
                    old_value: v,
                    new_value: e.value,
                    operation: DeltaOp::Update,
                },
                None => Delta {
                    key: e.key.dup(),
                    ordinal: e.ordinal,
                    old_value: Dec::zero(),
                    new_value: e.value,
                    operation: DeltaOp::Create,
                },
            };
            out.push(d);
            i = i + 1;
        }
        out
    }
}

/// The mathematical form of one list write: the stored list as a
/// sequence of character sequences.
pub open spec fn wl_entry_view(e: EntryV<Vec<String>>) -> EntryV<Seq<Seq<char>>> {
    EntryV { key: e.key, ordinal: e.ordinal, value: e.value@.map_values(|x: String| x@) }
}

/// The mathematical form of a list-store log.
pub open spec fn wl_view(s: Seq<EntryV<Vec<String>>>) -> Seq<EntryV<Seq<Seq<char>>>> {
    s.map_values(|e: EntryV<Vec<String>>| wl_entry_view(e))
}

/// Functional model of [`Store::append_value`] at the view level: the
/// list under `key` (empty when absent) grows by one item.
pub open spec fn wl_append_model(
    s: Seq<EntryV<Seq<Seq<char>>>>,
    key: KeyV,
    ordinal: u64,
    item: Seq<char>,
) -> Seq<EntryV<Seq<Seq<char>>>> {
    let base: Seq<Seq<char>> = match get_last_spec(s, key) {
        Some(v) => v,
        None => Seq::<Seq<char>>::empty(),
    };
    s.push(EntryV { key, ordinal, value: base.push(item) })
}

/// Taking the view of a list-store log does not move the latest match.
pub proof fn lemma_wl_view_last_match(s: Seq<EntryV<Vec<String>>>, key: KeyV)
    ensures
        wl_view(s).len() == s.len(),
        last_match(wl_view(s), key) == last_match(s, key),
    decreases s.len(),
{
    if s.len() > 0 {
        assert(wl_view(s).last() == wl_entry_view(s.last()));
        assert(wl_view(s).drop_last() =~= wl_view(s.drop_last()));
        lemma_wl_view_last_match(s.drop_last(), key);
    }
}

/// Model of [`Store::append_value`]: extend the list under `key` by one
/// item (starting from the empty list).
pub open spec fn append_model(
    s: Seq<EntryV<Vec<String>>>,
    key: KeyV,
    ordinal: u64,
    item: String,
    result: Seq<EntryV<Vec<String>>>,
) -> bool {
    let base: Seq<String> = match get_last_spec(s, key) {
        Some(v) => v@,
        None => Seq::<String>::empty(),
    };
    &&& result.len() == s.len() + 1
    &&& forall|j: int| 0 <= j < s.len() ==> result[j] == s[j]
    &&& result.last().key == key
    &&& result.last().ordinal == ordinal
    &&& result.last().value@ == base.push(item)
}

impl Store<Vec<String>> {
    /// Appends one item to the list stored under `key`.
    pub fn append_value(&mut self, key: Key, ordinal: u64, item: String)
        ensures
            append_model(old(self)@, key@, ordinal, item, final(self)@),
            wl_view(final(self)@) == wl_append_model(wl_view(old(self)@), key@, ordinal, item@),
    {
        proof {
            lemma_last_match(self@, key@);
        }
        let mut list: Vec<String> = Vec::new();
        match self.get_last(&key) {
            Some(v) => {
                let m = v.len();
                let ghost base = v@;
                let mut j: usize = 0;
                // copy the existing list; get_last's borrow must end
                // before the push below
                while j < m
                    invariant
                        0 <= j <= m,
                        m == base.len(),
                        list@ =~= base.subrange(0, j as int),
                        get_last_spec(self@, key@) is Some,
                        get_last_spec(self@, key@).unwrap()@ == base,
                    decreases m - j,
                {
                    let v2 = match self.get_last(&key) {
                        Some(v2) => v2,
                        None => unreached(),
                    };
                    list.push(v2[j].clone());
                    j = j + 1;
                }
                proof {
                    assert(list@ =~= base);
                }
            },
            None => {},
        }
        let ghost base_items: Seq<Seq<char>> = match get_last_spec(self@, key@) {
            Some(v) => v@.map_values(|x: String| x@),
            None => Seq::<Seq<char>>::empty(),
        };
        proof {
            assert(list@.map_values(|x: String| x@) =~= base_items);
        }
        list.push(item);
        let ghost before = self@;
        self.entries.push(Entry { key, ordinal, value: list });
        proof {
            assert(final(self)@ =~= before.push(final(self)@.last()));
            assert(final(self)@.last().key == key@);
            lemma_wl_view_last_match(before, key@);
            if get_last_spec(before, key@) is Some {
                let j = last_match(before, key@);
                assert(wl_view(before)[j] == wl_entry_view(before[j]));
                assert(get_last_spec(wl_view(before), key@) == Some(base_items));
            } else {
                assert(get_last_spec(wl_view(before), key@) is None);
            }
            assert(wl_entry_view(final(self)@.last()).value =~= base_items.push(item@));
            assert(wl_view(final(self)@) =~= wl_view(before).push(
                wl_entry_view(final(self)@.last()),
            ));
            assert(wl_view(final(self)@) =~= wl_append_model(
                wl_view(before),
                key@,
                ordinal,
                item@,
            ));
        }
    }
}

} // verus!
