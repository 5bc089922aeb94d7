//! The cache of transactions already seen: an `lru::LruCache` keyed by the hash of
//! the transaction, read through the names `cached_keys` and `cache_capacity`.
use vstd::prelude::*;
use lru::LruCache;
use std::num::NonZeroUsize;

verus! {

#[verifier::external_type_specification]
#[verifier::external_body]
#[verifier::reject_recursive_types(K)]
#[verifier::reject_recursive_types(V)]
#[verifier::reject_recursive_types(S)]
pub struct ExLruCache<K, V, S>(LruCache<K, V, S>);

#[verifier::external_type_specification]
#[verifier::external_body]
pub struct ExLruHasher(lru::DefaultHasher);

/// The key of a transaction in the cache: its hash as four 64-bit limbs.
pub type TxKey = (u64, u64, u64, u64);

/// The keys in the cache, most recently used first (of the cache's methods only
/// `push` is called here, and `contains` leaves the order alone).
pub uninterp spec fn cached_keys(c: LruCache<TxKey, ()>) -> Seq<TxKey>;

/// The number of keys the cache holds at most.
pub uninterp spec fn cache_capacity(c: LruCache<TxKey, ()>) -> nat;

/// Every key but `k`.
pub open spec fn other_than(k: TxKey) -> spec_fn(TxKey) -> bool {
    |x: TxKey| x != k
}

/// The keys a cache can hold: no key twice, and no more than its capacity.
pub open spec fn keys_wf(keys: Seq<TxKey>, capacity: nat) -> bool {
    keys.no_duplicates() && keys.len() <= capacity
}

/// Leaving `k` out of keys with no repeats: what stays has no repeats, lacks `k`, is
/// part of the keys, and is one shorter exactly when `k` was there.
pub proof fn lemma_filter_out_key(keys: Seq<TxKey>, k: TxKey)
    requires
        keys.no_duplicates(),
    ensures
        keys.filter(other_than(k)).no_duplicates(),
        !keys.filter(other_than(k)).contains(k),
        forall|x: TxKey| keys.filter(other_than(k)).contains(x) ==> keys.contains(x),
        keys.filter(other_than(k)).len() == if keys.contains(k) {
            keys.len() - 1
        } else {
            keys.len() as int
        },
    decreases keys.len(),
{
    reveal(Seq::filter);
    let f = keys.filter(other_than(k));
    if keys.len() > 0 {
        let init = keys.drop_last();
        let last = keys.last();
        assert(init.no_duplicates());
        lemma_filter_out_key(init, k);
        let g = init.filter(other_than(k));
        assert(f == if other_than(k)(last) { g.push(last) } else { g });
        assert(!init.contains(last)) by {
            if init.contains(last) {
                let i = choose|i: int| 0 <= i < init.len() && init[i] == last;
                assert(keys[i] == keys[keys.len() - 1]);
            }
        }
        assert(keys.contains(k) == (init.contains(k) || last == k)) by {
            if keys.contains(k) && !init.contains(k) {
                let i = choose|i: int| 0 <= i < keys.len() && keys[i] == k;
                if i < keys.len() - 1 {
                    assert(init[i] == k);
                }
            }
            if init.contains(k) {
                let i = choose|i: int| 0 <= i < init.len() && init[i] == k;
                assert(keys[i] == k);
            }
        }
        assert forall|x: TxKey| f.contains(x) implies keys.contains(x) by {
            let i = choose|i: int| 0 <= i < f.len() && f[i] == x;
            if other_than(k)(last) && i == f.len() - 1 {
                assert(keys[keys.len() - 1] == x);
            } else {
                assert(i < g.len());
                assert(f[i] == g[i]);
                assert(g.contains(x));
                assert(init.contains(x));
                let j = choose|j: int| 0 <= j < init.len() && init[j] == x;
                assert(keys[j] == x);
            }
        }
        if other_than(k)(last) {
            assert(!g.contains(last));
            assert forall|a: int, b: int| 0 <= a < f.len() && 0 <= b < f.len() && a != b implies f[a] != f[b] by {
                if a == f.len() - 1 {
                    assert(g.contains(f[b]) ==> f[b] != last);
                    assert(f[b] == g[b]);
                } else if b == f.len() - 1 {
                    assert(f[a] == g[a]);
                } else {
                    assert(f[a] == g[a] && f[b] == g[b]);
                }
            }
        }
    } else {
        assert(f.len() == 0);
    }
}

/// Pushing a key keeps the keys a cache can hold.
pub proof fn lemma_push_keeps_wf(keys: Seq<TxKey>, capacity: nat, k: TxKey)
    requires
        keys_wf(keys, capacity),
        capacity > 0,
    ensures
        keys_wf(pushed_keys(keys, capacity, k), capacity),
{
    let p = pushed_keys(keys, capacity, k);
    if keys.contains(k) {
        lemma_filter_out_key(keys, k);
        let f = keys.filter(other_than(k));
        assert forall|a: int, b: int| 0 <= a < p.len() && 0 <= b < p.len() && a != b implies p[a] != p[b] by {
            if a == 0 {
                assert(p[b] == f[b - 1]);
            } else if b == 0 {
                assert(p[a] == f[a - 1]);
            } else {
                assert(p[a] == f[a - 1] && p[b] == f[b - 1]);
            }
        }
    } else {
        let rest = if keys.len() == capacity { keys.drop_last() } else { keys };
        assert(p == seq![k] + rest);
        assert forall|a: int, b: int| 0 <= a < p.len() && 0 <= b < p.len() && a != b implies p[a] != p[b] by {
            if a == 0 {
                assert(p[b] == keys[b - 1]);
            } else if b == 0 {
                assert(p[a] == keys[a - 1]);
            } else {
                assert(p[a] == keys[a - 1] && p[b] == keys[b - 1]);
            }
        }
    }
}

/// The keys after pushing `k`: a key already there moves to the front; otherwise a
/// full cache drops its least recently used key and `k` goes in front.
pub open spec fn pushed_keys(keys: Seq<TxKey>, capacity: nat, k: TxKey) -> Seq<TxKey> {
    if keys.contains(k) {
        seq![k] + keys.filter(other_than(k))
    } else if keys.len() == capacity {
        seq![k] + keys.drop_last()
    } else {
        seq![k] + keys
    }
}

/// `LruCache::new`: an empty cache that holds at most `capacity` keys
/// (`NonZeroUsize::new(..).unwrap()` panics on 0, which `requires` leaves out).
#[verifier::external_body]
pub(crate) fn cache_new(capacity: usize) -> (r: LruCache<TxKey, ()>)
    requires
        capacity > 0,
    ensures
        cached_keys(r) == Seq::<TxKey>::empty(),
        cache_capacity(r) == capacity,
{
    LruCache::new(NonZeroUsize::new(capacity).unwrap())
}

/// `LruCache::contains`: whether the key is in the cache (the order is untouched).
#[verifier::external_body]
pub(crate) fn cache_contains(c: &LruCache<TxKey, ()>, k: &TxKey) -> (r: bool)
    ensures
        r == cached_keys(*c).contains(*k),
{
    c.contains(k)
}

/// `LruCache::push`: puts the key in front, evicting the least recently used key
/// of a full cache (what it hands back is dropped).
#[verifier::external_body]
pub(crate) fn cache_push(c: &mut LruCache<TxKey, ()>, k: TxKey)
    ensures
        cached_keys(*final(c)) == pushed_keys(cached_keys(*old(c)), cache_capacity(*old(c)), k),
        cache_capacity(*final(c)) == cache_capacity(*old(c)),
{
    c.push(k, ());
}

} // verus!
