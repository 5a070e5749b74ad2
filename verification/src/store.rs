//! The per-node cache store: a bounded map from string keys to structured
//! values, with lazy time-to-live expiry on reads and least-recently-used
//! eviction on writes.
//!
//! The store's state is modelled as a sequence of entries ordered by recency
//! of touch, most recent first, with pairwise-distinct keys. Every operation
//! is specified as a function of that sequence.

use vstd::prelude::*;

use crate::ttl::{spec_resolve_ttl, resolve_ttl, CacheItemTTL};

verus! {

/// One resident entry, as the model sees it.
pub ghost struct EntryModel {
    pub key: Seq<char>,
    pub value: Seq<char>,
    pub expires_at: Option<u64>,
}

/// An entry is visible to readers only while its expiry is absent or still
/// in the future.
pub open spec fn entry_live(e: EntryModel, now: u64) -> bool {
    match e.expires_at {
        Option::None => true,
        Option::Some(t) => now < t,
    }
}

pub open spec fn keys_distinct(s: Seq<EntryModel>) -> bool {
    forall|i: int, j: int|
        0 <= i < j < s.len() ==> #[trigger] s[i].key != #[trigger] s[j].key
}

/// Index of the entry holding `k`, or `-1` when no entry does.
pub open spec fn idx_of_key(s: Seq<EntryModel>, k: Seq<char>) -> int
    decreases s.len(),
{
    if s.len() == 0 {
        -1
    } else if s[0].key == k {
        0
    } else if idx_of_key(s.drop_first(), k) < 0 {
        -1
    } else {
        idx_of_key(s.drop_first(), k) + 1
    }
}

pub open spec fn has_key(s: Seq<EntryModel>, k: Seq<char>) -> bool {
    idx_of_key(s, k) >= 0
}

pub open spec fn entry_of(s: Seq<EntryModel>, k: Seq<char>) -> EntryModel {
    s[idx_of_key(s, k)]
}

/// What `idx_of_key` finds: the first entry with the key, and nothing before
/// it; when it finds none, no entry has the key.
pub proof fn lemma_idx_of_key(s: Seq<EntryModel>, k: Seq<char>)
    ensures
        has_key(s, k) ==> {
            &&& 0 <= idx_of_key(s, k) < s.len()
            &&& s[idx_of_key(s, k)].key == k
            &&& forall|j: int| 0 <= j < idx_of_key(s, k) ==> #[trigger] s[j].key != k
        },
        !has_key(s, k) ==> forall|j: int| 0 <= j < s.len() ==> #[trigger] s[j].key != k,
    decreases s.len(),
{
    if s.len() > 0 && s[0].key != k {
        lemma_idx_of_key(s.drop_first(), k);
        let sub = idx_of_key(s.drop_first(), k);
        if sub >= 0 {
            assert(s.drop_first()[sub] == s[sub + 1]);
            assert forall|j: int| 0 <= j < sub + 1 implies #[trigger] s[j].key != k by {
                if j > 0 {
                    assert(s.drop_first()[j - 1] == s[j]);
                }
            }
        } else {
            assert forall|j: int| 0 <= j < s.len() implies #[trigger] s[j].key != k by {
                if j > 0 {
                    assert(s.drop_first()[j - 1] == s[j]);
                }
            }
        }
    }
}

/// The state with the entry for `k` taken out, if one is resident.
pub open spec fn remove_key(s: Seq<EntryModel>, k: Seq<char>) -> Seq<EntryModel> {
    if has_key(s, k) {
        s.remove(idx_of_key(s, k))
    } else {
        s
    }
}

/// The state after `set(k, v)` resolved the TTL to `exp`: any old entry for
/// `k` is replaced; if the store is full and `k` is new, the least recently
/// touched entry makes room; the new entry is the most recent.
pub open spec fn spec_set(
    s: Seq<EntryModel>,
    k: Seq<char>,
    v: Seq<char>,
    exp: Option<u64>,
    cap: nat,
) -> Seq<EntryModel> {
    let without = remove_key(s, k);
    let fitted = if without.len() >= cap {
        without.take(cap as int - 1)
    } else {
        without
    };
    seq![EntryModel { key: k, value: v, expires_at: exp }] + fitted
}

/// What `get(k)` returns: the resident value while it is live, absent
/// otherwise.
pub open spec fn spec_get_result(s: Seq<EntryModel>, k: Seq<char>, now: u64) -> Option<Seq<char>> {
    if has_key(s, k) && entry_live(entry_of(s, k), now) {
        Option::Some(entry_of(s, k).value)
    } else {
        Option::None
    }
}

/// The state after `get(k)`: a live entry is touched (moved to most recent),
/// an expired one is lazily removed, and a miss changes nothing.
pub open spec fn spec_get_state(s: Seq<EntryModel>, k: Seq<char>, now: u64) -> Seq<EntryModel> {
    if has_key(s, k) {
        if entry_live(entry_of(s, k), now) {
            seq![entry_of(s, k)] + remove_key(s, k)
        } else {
            remove_key(s, k)
        }
    } else {
        s
    }
}

/// What `delete(k)` reports: one removal when a live entry was resident,
/// zero when the key was absent or already lazily expired.
pub open spec fn spec_delete_count(s: Seq<EntryModel>, k: Seq<char>, now: u64) -> int {
    if has_key(s, k) && entry_live(entry_of(s, k), now) {
        1
    } else {
        0
    }
}

/// The state after `delete(k)`: the entry for `k` is gone, expired or not.
pub open spec fn spec_delete_state(s: Seq<EntryModel>, k: Seq<char>) -> Seq<EntryModel> {
    remove_key(s, k)
}

/// One resident entry as stored: the value text and the absolute expiry
/// instant, `None` for entries that never expire.
pub struct CacheEntry {
    pub value: String,
    pub expires_at: Option<u64>,
}

/// The per-node store: entries ordered most recently touched first, a fixed
/// capacity, and the default TTL applied when a `Set` names none.
pub struct CacheStore {
    entries: Vec<(String, CacheEntry)>,
    capacity: u64,
    default_ttl_seconds: u64,
}

impl View for CacheStore {
    type V = Seq<EntryModel>;

    closed spec fn view(&self) -> Seq<EntryModel> {
        self.entries@.map_values(
            |p: (String, CacheEntry)|
                EntryModel { key: p.0@, value: p.1.value@, expires_at: p.1.expires_at },
        )
    }
}

impl CacheStore {
    pub closed spec fn spec_capacity(self) -> u64 {
        self.capacity
    }

    pub closed spec fn spec_default_ttl(self) -> u64 {
        self.default_ttl_seconds
    }

    /// The store's invariant: keys are unique and the resident count never
    /// exceeds the capacity fixed at construction.
    pub open spec fn wf(self) -> bool {
        &&& keys_distinct(self@)
        &&& self@.len() <= self.spec_capacity()
        &&& self.spec_capacity() >= 1
    }

    /// Creates an empty store with the given capacity bound and default TTL.
    pub fn new(capacity: u64, default_ttl_seconds: u64) -> (r: CacheStore)
        requires
            capacity >= 1,
        ensures
            r.wf(),
            r@ == Seq::<EntryModel>::empty(),
            r.spec_capacity() == capacity,
            r.spec_default_ttl() == default_ttl_seconds,
    {
        let r = CacheStore { entries: Vec::new(), capacity, default_ttl_seconds };
        proof {
            assert(r@ =~= Seq::<EntryModel>::empty());
        }
        r
    }

    /// Position of the entry holding `key`, if one is resident.
    fn find_key(&self, key: &String) -> (r: Option<usize>)
        ensures
            r matches Some(i) ==> i == idx_of_key(self@, key@) && has_key(self@, key@),
            r is None ==> !has_key(self@, key@),
    {
        let n = self.entries.len();
        let mut i: usize = 0;
        while i < n
            invariant
                0 <= i <= n,
                n == self@.len(),
                forall|j: int| 0 <= j < i ==> #[trigger] self@[j].key != key@,
            decreases n - i,
        {
            if self.entries[i].0 == *key {
                proof {
                    lemma_idx_of_key(self@, key@);
                    assert(self@[i as int].key == key@);
                }
                return Some(i);
            }
            i = i + 1;
        }
        proof {
            lemma_idx_of_key(self@, key@);
        }
        None
    }

    /// Stores or overwrites the entry for `key`, resolving `ttl` against
    /// `now`; a full store first evicts its least recently touched entry.
    pub fn set(&mut self, key: String, value: String, ttl: CacheItemTTL, now: u64)
        requires
            old(self).wf(),
        ensures
            final(self).wf(),
            final(self)@ == spec_set(
                old(self)@,
                key@,
                value@,
                spec_resolve_ttl(ttl, now, old(self).spec_default_ttl()),
                old(self).spec_capacity() as nat,
            ),
            final(self).spec_capacity() == old(self).spec_capacity(),
            final(self).spec_default_ttl() == old(self).spec_default_ttl(),
    {
        let ghost s0 = self@;
        let expires_at = resolve_ttl(ttl, now, self.default_ttl_seconds);
        match self.find_key(&key) {
            Some(i) => {
                proof {
                    lemma_idx_of_key(s0, key@);
                }
                self.entries.remove(i);
                proof {
                    assert(self@ =~= remove_key(s0, key@));
                    assert(self@.len() < old(self).spec_capacity());
                }
            },
            None => {
                if self.entries.len() as u64 >= self.capacity {
                    self.entries.pop();
                    proof {
                        assert(s0.len() == old(self).spec_capacity());
                        assert(remove_key(s0, key@) == s0);
                        assert(self@ =~= remove_key(s0, key@).take(
                            old(self).spec_capacity() as int - 1,
                        ));
                    }
                } else {
                    proof {
                        assert(remove_key(s0, key@) == s0);
                    }
                }
            },
        }
        let ghost mid = self@;
        self.entries.insert(0, (key, CacheEntry { value, expires_at }));
        proof {
            assert(self@ =~= seq![
                EntryModel { key: key@, value: value@, expires_at },
            ] + mid);
            lemma_set_shape(s0, key@, value@, expires_at, old(self).spec_capacity() as nat);
        }
    }

    /// Returns the value under `key` while it is live; an expired entry is
    /// removed on this read and reported absent; a live hit counts as a
    /// touch.
    pub fn get(&mut self, key: &str, now: u64) -> (r: Option<String>)
        requires
            old(self).wf(),
        ensures
            final(self).wf(),
            r is Some <==> spec_get_result(old(self)@, key@, now) is Some,
            r matches Some(v) ==> spec_get_result(old(self)@, key@, now) == Option::Some(v@),
            final(self)@ == spec_get_state(old(self)@, key@, now),
            final(self).spec_capacity() == old(self).spec_capacity(),
            final(self).spec_default_ttl() == old(self).spec_default_ttl(),
    {
        let ghost s0 = self@;
        let owned = key.to_owned();
        match self.find_key(&owned) {
            None => None,
            Some(i) => {
                proof {
                    lemma_idx_of_key(s0, key@);
                }
                let live = match self.entries[i].1.expires_at {
                    Some(t) => now < t,
                    None => true,
                };
                if live {
                    let (k, e) = self.entries.remove(i);
                    proof {
                        assert(self@ =~= remove_key(s0, key@));
                    }
                    let out = e.value.clone();
                    let ghost mid = self@;
                    self.entries.insert(0, (k, e));
                    proof {
                        assert(self@ =~= seq![entry_of(s0, key@)] + mid);
                        lemma_remove_key_shape(s0, key@);
                    }
                    Some(out)
                } else {
                    self.entries.remove(i);
                    proof {
                        assert(self@ =~= remove_key(s0, key@));
                        lemma_remove_key_shape(s0, key@);
                    }
                    None
                }
            },
        }
    }

    /// Removes the entry for `key`. Reports 1 when a live entry was removed
    /// and 0 when the key was absent or already expired; an expired entry is
    /// still removed.
    pub fn delete(&mut self, key: &str, now: u64) -> (r: i64)
        requires
            old(self).wf(),
        ensures
            final(self).wf(),
            r == spec_delete_count(old(self)@, key@, now),
            final(self)@ == spec_delete_state(old(self)@, key@),
            final(self).spec_capacity() == old(self).spec_capacity(),
            final(self).spec_default_ttl() == old(self).spec_default_ttl(),
    {
        let ghost s0 = self@;
        let owned = key.to_owned();
        match self.find_key(&owned) {
            None => 0,
            Some(i) => {
                proof {
                    lemma_idx_of_key(s0, key@);
                }
                let live = match self.entries[i].1.expires_at {
                    Some(t) => now < t,
                    None => true,
                };
                self.entries.remove(i);
                proof {
                    assert(self@ =~= remove_key(s0, key@));
                    lemma_remove_key_shape(s0, key@);
                }
                if live {
                    1
                } else {
                    0
                }
            },
        }
    }
}

/// Removing a key keeps the remaining entries, their relative order and
/// their key distinctness, and leaves the key absent.
pub proof fn lemma_remove_key_shape(s: Seq<EntryModel>, k: Seq<char>)
    requires
        keys_distinct(s),
    ensures
        keys_distinct(remove_key(s, k)),
        remove_key(s, k).len() == if has_key(s, k) {
            s.len() - 1
        } else {
            s.len() as int
        },
        !has_key(remove_key(s, k), k),
        forall|j: int|
            0 <= j < remove_key(s, k).len() ==> #[trigger] remove_key(s, k)[j].key != k,
{
    lemma_idx_of_key(s, k);
    if has_key(s, k) {
        let i = idx_of_key(s, k);
        let r = s.remove(i);
        assert forall|j: int| 0 <= j < r.len() implies #[trigger] r[j].key != k by {
            if j < i {
                assert(r[j] == s[j]);
            } else {
                assert(r[j] == s[j + 1]);
            }
        }
        lemma_no_key_not_found(r, k);
    } else {
        lemma_no_key_not_found(s, k);
    }
}

/// A sequence none of whose entries holds `k` has no entry for `k`.
pub proof fn lemma_no_key_not_found(s: Seq<EntryModel>, k: Seq<char>)
    requires
        forall|j: int| 0 <= j < s.len() ==> #[trigger] s[j].key != k,
    ensures
        !has_key(s, k),
{
    lemma_idx_of_key(s, k);
}

/// After a set, the key's entry is the most recent one and holds the new
/// value; a get at a time where that entry is live returns exactly the
/// value that was set.
pub proof fn lemma_set_then_get(
    s: Seq<EntryModel>,
    k: Seq<char>,
    v: Seq<char>,
    exp: Option<u64>,
    cap: nat,
    now: u64,
)
    requires
        keys_distinct(s),
        s.len() <= cap,
        cap >= 1,
    ensures
        ({
            let after = spec_set(s, k, v, exp, cap);
            let e = EntryModel { key: k, value: v, expires_at: exp };
            &&& has_key(after, k)
            &&& entry_of(after, k) == e
            &&& entry_live(e, now) ==> spec_get_result(after, k, now) == Option::Some(v)
            &&& !entry_live(e, now) ==> spec_get_result(after, k, now) is None
        }),
{
    lemma_set_shape(s, k, v, exp, cap);
    let after = spec_set(s, k, v, exp, cap);
    assert(after.len() > 0 && after[0].key == k);
    assert(idx_of_key(after, k) == 0);
}

/// TTL correctness: an entry set with a specific duration `d` at time `t0`
/// is returned by a get at any time `t < t0 + d` and is reported absent at
/// any time `t >= t0 + d`.
pub proof fn lemma_ttl_correctness(
    s: Seq<EntryModel>,
    k: Seq<char>,
    v: Seq<char>,
    d: u64,
    t0: u64,
    t: u64,
    default_ttl: u64,
    cap: nat,
)
    requires
        keys_distinct(s),
        s.len() <= cap,
        cap >= 1,
        t0 + d <= u64::MAX,
    ensures
        ({
            let after = spec_set(
                s,
                k,
                v,
                spec_resolve_ttl(CacheItemTTL::Custom(d), t0, default_ttl),
                cap,
            );
            &&& t < t0 + d ==> spec_get_result(after, k, t) == Option::Some(v)
            &&& t >= t0 + d ==> spec_get_result(after, k, t) is None
        }),
{
    let exp = spec_resolve_ttl(CacheItemTTL::Custom(d), t0, default_ttl);
    assert(exp == Option::Some((t0 + d) as u64));
    lemma_set_then_get(s, k, v, exp, cap, t);
}

/// Permanent entries: an entry set as permanent is returned at any later
/// time, however distant; only an explicit delete (or capacity eviction)
/// takes it out.
pub proof fn lemma_permanent_entries(
    s: Seq<EntryModel>,
    k: Seq<char>,
    v: Seq<char>,
    t0: u64,
    t: u64,
    default_ttl: u64,
    cap: nat,
)
    requires
        keys_distinct(s),
        s.len() <= cap,
        cap >= 1,
    ensures
        ({
            let after = spec_set(
                s,
                k,
                v,
                spec_resolve_ttl(CacheItemTTL::Permanent, t0, default_ttl),
                cap,
            );
            &&& spec_get_result(after, k, t) == Option::Some(v)
            &&& !has_key(spec_delete_state(after, k), k)
        }),
{
    let exp = spec_resolve_ttl(CacheItemTTL::Permanent, t0, default_ttl);
    lemma_set_then_get(s, k, v, exp, cap, t);
    lemma_set_shape(s, k, v, exp, cap);
    lemma_remove_key_shape(spec_set(s, k, v, exp, cap), k);
}

/// Capacity eviction: when a set of a fresh key finds the store full, the
/// entry evicted is exactly the least recently touched one, every other
/// entry survives in order, and the count stays at the capacity.
pub proof fn lemma_capacity_eviction(
    s: Seq<EntryModel>,
    k: Seq<char>,
    v: Seq<char>,
    exp: Option<u64>,
    cap: nat,
)
    requires
        keys_distinct(s),
        s.len() == cap,
        cap >= 1,
        !has_key(s, k),
    ensures
        ({
            let after = spec_set(s, k, v, exp, cap);
            &&& after.len() == cap
            &&& after =~= seq![EntryModel { key: k, value: v, expires_at: exp }] + s.drop_last()
            &&& !has_key(after, s.last().key)
            &&& forall|j: int| 0 <= j < cap - 1 ==> #[trigger] after[j + 1] == s[j]
        }),
{
    lemma_idx_of_key(s, k);
    lemma_set_shape(s, k, v, exp, cap);
    let after = spec_set(s, k, v, exp, cap);
    assert(after =~= seq![EntryModel { key: k, value: v, expires_at: exp }] + s.drop_last());
    let evicted = s.last().key;
    assert(s[s.len() - 1].key == evicted);
    assert(k != evicted);
    assert forall|j: int| 0 <= j < after.len() implies #[trigger] after[j].key != evicted by {
        if j > 0 {
            assert(after[j] == s[j - 1]);
        }
    }
    lemma_no_key_not_found(after, evicted);
}

/// The store state after a whole run of sets, applied in order.
pub open spec fn spec_set_many(s: Seq<EntryModel>, ops: Seq<EntryModel>, cap: nat) -> Seq<
    EntryModel,
>
    decreases ops.len(),
{
    if ops.len() == 0 {
        s
    } else {
        spec_set(
            spec_set_many(s, ops.drop_last(), cap),
            ops.last().key,
            ops.last().value,
            ops.last().expires_at,
            cap,
        )
    }
}

/// Capacity bound: starting from an empty store of capacity `cap`, a run of
/// sets of pairwise-distinct keys with no deletions leaves exactly
/// `min(n, cap)` keys resident — the most recently set ones, most recent
/// first — so every key evicted along the way is among the least recently
/// touched.
pub proof fn lemma_capacity_bound(ops: Seq<EntryModel>, cap: nat)
    requires
        cap >= 1,
        keys_distinct(ops),
    ensures
        ({
            let state = spec_set_many(Seq::<EntryModel>::empty(), ops, cap);
            &&& state.len() == if ops.len() <= cap {
                ops.len() as int
            } else {
                cap as int
            }
            &&& forall|i: int| 0 <= i < state.len() ==> #[trigger] state[i] == ops[ops.len() - 1
                - i]
        }),
    decreases ops.len(),
{
    if ops.len() > 0 {
        let shorter = ops.drop_last();
        assert(keys_distinct(shorter)) by {
            assert forall|i: int, j: int|
                0 <= i < j < shorter.len() implies #[trigger] shorter[i].key
                != #[trigger] shorter[j].key by {
                assert(shorter[i] == ops[i] && shorter[j] == ops[j]);
            }
        }
        lemma_capacity_bound(shorter, cap);
        let prev = spec_set_many(Seq::<EntryModel>::empty(), shorter, cap);
        let op = ops.last();
        assert forall|j: int| 0 <= j < prev.len() implies #[trigger] prev[j].key != op.key by {
            assert(prev[j] == shorter[shorter.len() - 1 - j]);
            assert(shorter[shorter.len() - 1 - j] == ops[ops.len() - 2 - j]);
            assert(ops[ops.len() - 2 - j].key != ops[ops.len() - 1].key);
            assert(ops[ops.len() - 1] == op);
        }
        lemma_no_key_not_found(prev, op.key);
        let state = spec_set_many(Seq::<EntryModel>::empty(), ops, cap);
        assert(state == spec_set(prev, op.key, op.value, op.expires_at, cap));
        let fitted = if prev.len() >= cap {
            prev.take(cap as int - 1)
        } else {
            prev
        };
        assert(state == seq![
            EntryModel { key: op.key, value: op.value, expires_at: op.expires_at },
        ] + fitted);
        assert(state[0] == op);
        assert forall|i: int| 0 <= i < state.len() implies #[trigger] state[i] == ops[ops.len() - 1
            - i] by {
            if i > 0 {
                assert(state[i] == fitted[i - 1]);
                assert(fitted[i - 1] == prev[i - 1]);
                assert(prev[i - 1] == shorter[shorter.len() - 1 - (i - 1)]);
                assert(shorter[shorter.len() - 1 - (i - 1)] == ops[ops.len() - 1 - i]);
            }
        }
    }
}

/// Delete idempotence: deleting a live key reports one removal; every
/// further delete before a re-set reports zero and changes nothing; and a
/// get after the delete finds nothing.
pub proof fn lemma_delete_idempotent(s: Seq<EntryModel>, k: Seq<char>, now1: u64, now2: u64)
    requires
        keys_distinct(s),
    ensures
        has_key(s, k) && entry_live(entry_of(s, k), now1) ==> spec_delete_count(s, k, now1) == 1,
        spec_delete_count(spec_delete_state(s, k), k, now2) == 0,
        spec_delete_state(spec_delete_state(s, k), k) == spec_delete_state(s, k),
        spec_get_result(spec_delete_state(s, k), k, now2) is None,
{
    lemma_remove_key_shape(s, k);
}

/// The state after a set: the new entry leads, keys stay distinct, and the
/// count never exceeds the capacity.
pub proof fn lemma_set_shape(s: Seq<EntryModel>, k: Seq<char>, v: Seq<char>, exp: Option<u64>, cap: nat)
    requires
        keys_distinct(s),
        s.len() <= cap,
        cap >= 1,
    ensures
        keys_distinct(spec_set(s, k, v, exp, cap)),
        spec_set(s, k, v, exp, cap).len() <= cap,
        spec_set(s, k, v, exp, cap)[0] == (EntryModel { key: k, value: v, expires_at: exp }),
        has_key(s, k) ==> spec_set(s, k, v, exp, cap).len() == s.len() as int,
        !has_key(s, k) ==> spec_set(s, k, v, exp, cap).len() == if s.len() == cap {
            cap as int
        } else {
            s.len() + 1 as int
        },
{
    lemma_remove_key_shape(s, k);
    let without = remove_key(s, k);
    let fitted = if without.len() >= cap {
        without.take(cap as int - 1)
    } else {
        without
    };
    assert forall|j: int| 0 <= j < fitted.len() implies #[trigger] fitted[j].key != k by {
        assert(fitted[j] == without[j]);
    }
    let out = spec_set(s, k, v, exp, cap);
    assert forall|i: int, j: int|
        0 <= i < j < out.len() implies #[trigger] out[i].key != #[trigger] out[j].key by {
        if i == 0 {
            assert(out[j] == fitted[j - 1]);
        } else {
            assert(out[i] == fitted[i - 1]);
            assert(out[j] == fitted[j - 1]);
            assert(fitted[i - 1] == without[i - 1]);
            assert(fitted[j - 1] == without[j - 1]);
        }
    }
}

} // verus!
