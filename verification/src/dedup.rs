//! The gossip deduplication cache: a bounded, recency-ordered record of
//! blob identifiers already seen, used to suppress redundant rebroadcast.
//!
//! The cache is backed by the `lru` crate's `LruCache`. Its contents are
//! modelled as a sequence of identifiers in recency order: least recently
//! touched first, most recently touched last. The cache never exceeds its
//! capacity; when a new identifier arrives at a full cache, the least
//! recently touched one is evicted. The cache lives only for the process:
//! suppression is best-effort, and downstream consumers must deduplicate by
//! content identity on their own.

use vstd::prelude::*;
use vstd::seq_lib::*;

verus! {

#[verifier::external_type_specification]
#[verifier::external_body]
#[verifier::reject_recursive_types(K)]
#[verifier::reject_recursive_types(V)]
#[verifier::reject_recursive_types(S)]
pub struct ExLruCache<K, V, S>(lru::LruCache<K, V, S>);

/// The identifiers held by a cache, in recency order: least recently
/// touched first, most recently touched last.
pub uninterp spec fn lru_contents(c: lru::LruCache<u64, u32>) -> Seq<u64>;

/// The bound the cache was created with.
pub uninterp spec fn lru_capacity(c: lru::LruCache<u64, u32>) -> nat;

/// Relies on lru::LruCache::new: creates an empty cache that holds at most
/// `cap` items.
#[verifier::external_body]
fn lru_new(cap: usize) -> (c: lru::LruCache<u64, u32>)
    requires
        cap >= 1,
    ensures
        lru_contents(c) == Seq::<u64>::empty(),
        lru_capacity(c) == cap as nat,
{
    lru::LruCache::new(cap)
}

/// Relies on lru::LruCache::put: a key already present has its value
/// replaced (the old one is returned) and is moved to the most-recent
/// position; a new key is inserted at the most-recent position, and when
/// the cache is full the least-recently-used entry is evicted first.
#[verifier::external_body]
fn lru_put(c: &mut lru::LruCache<u64, u32>, k: u64) -> (prev: Option<u32>)
    requires
        lru_capacity(*old(c)) >= 1,
    ensures
        lru_capacity(*final(c)) == lru_capacity(*old(c)),
        prev is Some <==> lru_contents(*old(c)).contains(k),
        lru_contents(*old(c)).contains(k) ==> lru_contents(*final(c)) == lru_contents(
            *old(c),
        ).remove_value(k).push(k),
        !lru_contents(*old(c)).contains(k) && lru_contents(*old(c)).len() < lru_capacity(*old(c))
            ==> lru_contents(*final(c)) == lru_contents(*old(c)).push(k),
        !lru_contents(*old(c)).contains(k) && lru_contents(*old(c)).len() == lru_capacity(*old(c))
            ==> lru_contents(*final(c)) == lru_contents(*old(c)).drop_first().push(k),
{
    c.put(k, 0)
}

/// Relies on lru::LruCache::contains: a pure lookup that does not refresh
/// recency.
#[verifier::external_body]
fn lru_contains(c: &lru::LruCache<u64, u32>, k: u64) -> (r: bool)
    ensures
        r == lru_contents(*c).contains(k),
{
    c.contains(&k)
}

/// Relies on lru::LruCache::len: the number of entries currently held.
#[verifier::external_body]
fn lru_len(c: &lru::LruCache<u64, u32>) -> (n: usize)
    ensures
        n == lru_contents(*c).len(),
{
    c.len()
}

/// What one observation does to the cache contents: a known identifier is
/// touched (moved to the most-recent position), a new identifier is
/// appended, evicting the least recently touched one when the cache is
/// full.
pub open spec fn observe_update(s: Seq<u64>, cap: nat, x: u64) -> Seq<u64> {
    if s.contains(x) {
        s.remove_value(x).push(x)
    } else if s.len() < cap {
        s.push(x)
    } else {
        s.drop_first().push(x)
    }
}

/// Removing a value from a duplicate-free sequence removes exactly its one
/// occurrence and nothing else.
proof fn lemma_remove_value_no_dup(s: Seq<u64>, x: u64)
    requires
        s.no_duplicates(),
        s.contains(x),
    ensures
        s.remove_value(x).no_duplicates(),
        !s.remove_value(x).contains(x),
        s.remove_value(x).len() == s.len() - 1,
        forall|y: u64| y != x ==> (s.remove_value(x).contains(y) <==> s.contains(y)),
{
    s.index_of_first_ensures(x);
    let i = s.index_of_first(x).unwrap();
    s.remove_ensures(i);
    let t = s.remove(i);
    assert forall|p: int, q: int|
        0 <= p < t.len() && 0 <= q < t.len() && p != q implies t[p] != t[q] by {
        let sp: int = if p < i { p } else { p + 1 };
        let sq: int = if q < i { q } else { q + 1 };
        assert(t[p] == s[sp] && t[q] == s[sq]);
    }
    assert forall|y: u64| y != x && s.contains(y) implies t.contains(y) by {
        let j = choose|j: int| 0 <= j < s.len() && s[j] == y;
        if j < i {
            assert(t[j] == y);
        } else {
            assert(t[j - 1] == y);
        }
    }
    assert forall|y: u64| t.contains(y) implies s.contains(y) by {
        let j = choose|j: int| 0 <= j < t.len() && t[j] == y;
        let sj: int = if j < i { j } else { j + 1 };
        assert(s[sj] == y);
    }
    if t.contains(x) {
        let j = choose|j: int| 0 <= j < t.len() && t[j] == x;
        let sj: int = if j < i { j } else { j + 1 };
        assert(s[sj] == x && s[i] == x && sj != i);
    }
}

/// Bounded record of gossip blob identifiers already seen, with
/// least-recently-used eviction.
pub struct DedupCache {
    cache: lru::LruCache<u64, u32>,
}

impl DedupCache {
    /// The identifiers currently held, least recently touched first.
    pub closed spec fn view(&self) -> Seq<u64> {
        lru_contents(self.cache)
    }

    /// The fixed bound on how many identifiers are held at once.
    pub closed spec fn capacity(&self) -> nat {
        lru_capacity(self.cache)
    }

    /// The cache invariant: each identifier is held at most once, and the
    /// bound is respected.
    pub open spec fn wf(&self) -> bool {
        &&& self@.no_duplicates()
        &&& self@.len() <= self.capacity()
        &&& self.capacity() >= 1
    }

    /// Creates an empty cache holding at most `capacity` identifiers.
    pub fn new(capacity: usize) -> (c: DedupCache)
        requires
            capacity >= 1,
        ensures
            c.wf(),
            c@ == Seq::<u64>::empty(),
            c.capacity() == capacity as nat,
    {
        DedupCache { cache: lru_new(capacity) }
    }

    /// Reports whether `id` is currently held, without touching recency.
    pub fn contains(&self, id: u64) -> (r: bool)
        ensures
            r == self@.contains(id),
    {
        lru_contains(&self.cache, id)
    }

    /// The number of identifiers currently held.
    pub fn len(&self) -> (n: usize)
        ensures
            n == self@.len(),
    {
        lru_len(&self.cache)
    }

    /// Records one observation of `id` and reports whether it was new:
    /// `true` means the caller sees this identifier for the first time
    /// (since it was last evicted, if ever) and should process and forward
    /// it; `false` means it is a duplicate to drop silently. Observing an
    /// identifier always makes it the most recently touched one; observing
    /// a new identifier at a full cache first evicts the least recently
    /// touched one.
    pub fn observe(&mut self, id: u64) -> (fresh: bool)
        requires
            old(self).wf(),
        ensures
            final(self).wf(),
            final(self).capacity() == old(self).capacity(),
            fresh == !old(self)@.contains(id),
            final(self)@ == observe_update(old(self)@, old(self).capacity(), id),
            final(self)@.contains(id),
            final(self)@.last() == id,
            !fresh ==> final(self)@.len() == old(self)@.len(),
            fresh && old(self)@.len() < old(self).capacity() ==> final(self)@.len() == old(
                self,
            )@.len() + 1,
            fresh && old(self)@.len() == old(self).capacity() ==> final(self)@.len() == old(
                self,
            )@.len() && !final(self)@.contains(old(self)@.first()),
    {
        let ghost s = lru_contents(self.cache);
        let ghost cap = lru_capacity(self.cache);
        let prev = lru_put(&mut self.cache, id);
        proof {
            if s.contains(id) {
                lemma_remove_value_no_dup(s, id);
                let t = s.remove_value(id).push(id);
                assert(t.no_duplicates());
                assert(t.last() == id);
            } else if s.len() < cap {
                let t = s.push(id);
                assert forall|p: int, q: int|
                    0 <= p < t.len() && 0 <= q < t.len() && p != q implies t[p] != t[q] by {
                    if p < s.len() && q < s.len() {
                    } else if p < s.len() {
                        assert(t[p] == s[p] && s.contains(s[p]));
                    } else {
                        assert(t[q] == s[q] && s.contains(s[q]));
                    }
                }
            } else {
                let d = s.drop_first();
                assert forall|p: int, q: int|
                    0 <= p < d.len() && 0 <= q < d.len() && p != q implies d[p] != d[q] by {
                    assert(d[p] == s[p + 1] && d[q] == s[q + 1]);
                }
                let t = d.push(id);
                assert forall|p: int, q: int|
                    0 <= p < t.len() && 0 <= q < t.len() && p != q implies t[p] != t[q] by {
                    if p < d.len() && q < d.len() {
                    } else if p < d.len() {
                        assert(t[p] == s[p + 1] && s.contains(s[p + 1]));
                    } else {
                        assert(t[q] == s[q + 1] && s.contains(s[q + 1]));
                    }
                }
                assert(s.len() == cap >= 1);
                if t.contains(s.first()) {
                    let j = choose|j: int| 0 <= j < t.len() && t[j] == s.first();
                    if j < d.len() {
                        assert(s[j + 1] == s[0] && j + 1 != 0);
                    } else {
                        assert(!s.contains(id) && s.contains(s[0]));
                    }
                }
            }
            let t = observe_update(s, cap, id);
            assert(t.last() == id);
            assert(t.contains(id));
        }
        prev.is_none()
    }
}

/// Observing the same identifier twice yields "new" at most once: whatever
/// the cache held before, the first observation of `x` leaves `x` in the
/// cache, so the second observation of `x` (whose result is the absence of
/// `x` beforehand) is always "duplicate". In particular, on a cache that
/// does not hold `x`, the pair of observations yields (new, duplicate).
pub proof fn lemma_observe_twice(s: Seq<u64>, cap: nat, x: u64)
    ensures
        observe_update(s, cap, x).contains(x),
{
    let t = observe_update(s, cap, x);
    assert(t.last() == x);
    assert(t.contains(x));
}

/// What a whole run of observations does to the cache contents: each
/// identifier of `ids` is observed in turn, oldest first.
pub open spec fn observe_all(s: Seq<u64>, cap: nat, ids: Seq<u64>) -> Seq<u64>
    decreases ids.len(),
{
    if ids.len() == 0 {
        s
    } else {
        observe_update(observe_all(s, cap, ids.drop_last()), cap, ids.last())
    }
}

/// Filling an empty cache with at most `cap` distinct identifiers evicts
/// nothing: afterwards the cache holds exactly those identifiers, in the
/// order they arrived.
pub proof fn lemma_fill_no_eviction(cap: nat, ids: Seq<u64>)
    requires
        ids.no_duplicates(),
        ids.len() <= cap,
    ensures
        observe_all(Seq::empty(), cap, ids) == ids,
    decreases ids.len(),
{
    if ids.len() > 0 {
        let head = ids.drop_last();
        assert forall|i: int, j: int|
            0 <= i < head.len() && 0 <= j < head.len() && i != j implies head[i] != head[j] by {
            assert(head[i] == ids[i] && head[j] == ids[j]);
        }
        lemma_fill_no_eviction(cap, head);
        if head.contains(ids.last()) {
            let i = choose|i: int| 0 <= i < head.len() && head[i] == ids.last();
            assert(ids[i] == ids[ids.len() - 1] && i != ids.len() - 1);
        }
        assert(head.push(ids.last()) =~= ids);
    }
}

/// Observing `capacity + 1` distinct identifiers on an empty cache causes
/// exactly one eviction: afterwards the cache holds everything but the
/// first (least recently touched) identifier, and its size is exactly the
/// capacity.
pub proof fn lemma_capacity_plus_one_evicts_once(cap: nat, ids: Seq<u64>)
    requires
        ids.no_duplicates(),
        ids.len() == cap + 1,
        cap >= 1,
    ensures
        observe_all(Seq::empty(), cap, ids) == ids.drop_first(),
        observe_all(Seq::empty(), cap, ids).len() == cap,
        !observe_all(Seq::empty(), cap, ids).contains(ids.first()),
{
    let head = ids.drop_last();
    assert forall|i: int, j: int|
        0 <= i < head.len() && 0 <= j < head.len() && i != j implies head[i] != head[j] by {
        assert(head[i] == ids[i] && head[j] == ids[j]);
    }
    lemma_fill_no_eviction(cap, head);
    if head.contains(ids.last()) {
        let i = choose|i: int| 0 <= i < head.len() && head[i] == ids.last();
        assert(ids[i] == ids[ids.len() - 1] && i != ids.len() - 1);
    }
    let result = observe_all(Seq::empty(), cap, ids);
    assert(result == head.drop_first().push(ids.last()));
    assert(result =~= ids.drop_first());
    if result.contains(ids.first()) {
        let i = choose|i: int| 0 <= i < result.len() && result[i] == ids.first();
        assert(ids[i + 1] == ids[0] && i + 1 != 0);
    }
}

/// Observing a new identifier at a full, duplicate-free cache evicts
/// exactly the least recently touched identifier and nothing else: the size
/// stays at the bound, the first element is gone, the new identifier is
/// the most recent, and every other identifier survives.
pub proof fn lemma_full_cache_eviction(s: Seq<u64>, cap: nat, x: u64)
    requires
        s.no_duplicates(),
        s.len() == cap,
        cap >= 1,
        !s.contains(x),
    ensures
        observe_update(s, cap, x).len() == cap,
        observe_update(s, cap, x).last() == x,
        !observe_update(s, cap, x).contains(s.first()),
        forall|y: u64|
            y != s.first() && s.contains(y) ==> #[trigger] observe_update(s, cap, x).contains(y),
{
    let d = s.drop_first();
    let t = d.push(x);
    if t.contains(s.first()) {
        let j = choose|j: int| 0 <= j < t.len() && t[j] == s.first();
        if j < d.len() {
            assert(s[j + 1] == s[0] && j + 1 != 0);
        } else {
            assert(s.contains(s[0]));
        }
    }
    assert forall|y: u64| y != s.first() && s.contains(y) implies t.contains(y) by {
        let j = choose|j: int| 0 <= j < s.len() && s[j] == y;
        assert(j != 0);
        assert(t[j - 1] == s[j]);
    }
}

} // verus!
