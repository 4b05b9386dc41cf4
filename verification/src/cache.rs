//! Bounded, time-expiring key-value stores.
//!
//! A [`TtlCache`] keeps `(key, value, inserted_at)` entries in insertion
//! order.  An entry is visible to readers only while `now` lies in
//! `[inserted_at, inserted_at + CACHE_TTL_SECONDS)`; on overflow the oldest
//! entry is evicted.  The model of a cache is the sequence of
//! `(key view, value view, insertion time)` triples, and every operation is
//! specified against that model.  The store does not read a clock of its
//! own: every operation takes `now`, a timestamp in seconds, from the
//! caller.

use vstd::prelude::*;

use crate::text::str_eq;

verus! {

/// How long an entry stays visible, in seconds.
pub const CACHE_TTL_SECONDS: u64 = 3600;

/// How many entries a cache holds at most.
pub const CACHE_CAPACITY: usize = 10000;

/// An entry inserted at `inserted_at` is visible at `now`.
pub open spec fn entry_fresh(inserted_at: u64, now: u64) -> bool {
    inserted_at <= now && now < inserted_at + CACHE_TTL_SECONDS
}

/// Index of the first entry with key `k`, or `m.len()` when `k` is absent.
pub open spec fn lookup_index<T>(m: Seq<(Seq<char>, T, u64)>, k: Seq<char>) -> int
    decreases m.len(),
{
    if m.len() == 0 {
        0
    } else if m[0].0 == k {
        0
    } else {
        1 + lookup_index(m.drop_first(), k)
    }
}

/// The stored value and insertion time under key `k`, if any.
pub open spec fn cache_lookup<T>(m: Seq<(Seq<char>, T, u64)>, k: Seq<char>) -> Option<(T, u64)> {
    let i = lookup_index(m, k);
    if i < m.len() {
        Some((m[i].1, m[i].2))
    } else {
        None
    }
}

/// What a read of key `k` at time `now` returns: the stored value when its
/// entry is still fresh, nothing on a miss or after expiry.
pub open spec fn cache_get<T>(m: Seq<(Seq<char>, T, u64)>, k: Seq<char>, now: u64) -> Option<T> {
    match cache_lookup(m, k) {
        Some((v, t)) => if entry_fresh(t, now) {
            Some(v)
        } else {
            None
        },
        None => None,
    }
}

/// The model without any entry keyed `k`.
pub open spec fn remove_key<T>(m: Seq<(Seq<char>, T, u64)>, k: Seq<char>) -> Seq<
    (Seq<char>, T, u64),
>
    decreases m.len(),
{
    if m.len() == 0 {
        m
    } else if m[0].0 == k {
        remove_key(m.drop_first(), k)
    } else {
        seq![m[0]] + remove_key(m.drop_first(), k)
    }
}

/// What a write of `(k, v)` at time `now` does to the model: the old entry
/// for `k` goes away, the oldest entry is evicted when the store is full,
/// and the new entry is appended.
pub open spec fn cache_put<T>(
    m: Seq<(Seq<char>, T, u64)>,
    k: Seq<char>,
    v: T,
    now: u64,
) -> Seq<(Seq<char>, T, u64)> {
    let kept = remove_key(m, k);
    let bounded = if kept.len() >= CACHE_CAPACITY {
        kept.drop_first()
    } else {
        kept
    };
    bounded.push((k, v, now))
}

/// Well-formed model: distinct keys, within capacity.
pub open spec fn cache_wf<T>(m: Seq<(Seq<char>, T, u64)>) -> bool {
    &&& m.len() <= CACHE_CAPACITY
    &&& forall|i: int, j: int| 0 <= i < j < m.len() ==> m[i].0 != m[j].0
}

pub proof fn lemma_lookup_index_is<T>(m: Seq<(Seq<char>, T, u64)>, k: Seq<char>, i: int)
    requires
        0 <= i <= m.len(),
        forall|j: int| 0 <= j < i ==> m[j].0 != k,
        i < m.len() ==> m[i].0 == k,
    ensures
        lookup_index(m, k) == i,
    decreases m.len(),
{
    if m.len() == 0 {
    } else if m[0].0 == k {
        assert(i == 0);
    } else {
        assert(i != 0);
        assert forall|j: int| 0 <= j < i - 1 implies m.drop_first()[j].0 != k by {
            assert(m.drop_first()[j] == m[j + 1]);
        }
        lemma_lookup_index_is(m.drop_first(), k, i - 1);
    }
}

/// No entry of `remove_key(m, k)` carries key `k`, and the rest of `m` is
/// kept in order.
pub proof fn lemma_remove_key_absent<T>(m: Seq<(Seq<char>, T, u64)>, k: Seq<char>)
    requires
        forall|j: int| 0 <= j < m.len() ==> m[j].0 != k,
    ensures
        remove_key(m, k) == m,
    decreases m.len(),
{
    if m.len() == 0 {
        assert(remove_key(m, k) =~= m);
    } else {
        assert forall|j: int| 0 <= j < m.drop_first().len() implies m.drop_first()[j].0 != k by {
            assert(m.drop_first()[j] == m[j + 1]);
        }
        lemma_remove_key_absent(m.drop_first(), k);
        assert(remove_key(m, k) =~= m);
    }
}

/// When exactly the entry at `i` carries key `k`, removing the key removes
/// that one entry.
pub proof fn lemma_remove_key_at<T>(m: Seq<(Seq<char>, T, u64)>, k: Seq<char>, i: int)
    requires
        0 <= i < m.len(),
        m[i].0 == k,
        forall|j: int| 0 <= j < m.len() && j != i ==> m[j].0 != k,
    ensures
        remove_key(m, k) == m.remove(i),
    decreases m.len(),
{
    if i == 0 {
        assert forall|j: int| 0 <= j < m.drop_first().len() implies m.drop_first()[j].0 != k by {
            assert(m.drop_first()[j] == m[j + 1]);
        }
        lemma_remove_key_absent(m.drop_first(), k);
        assert(remove_key(m, k) =~= m.remove(0));
    } else {
        assert(m[0].0 != k);
        assert(m.drop_first()[i - 1] == m[i]);
        assert forall|j: int| 0 <= j < m.drop_first().len() && j != i - 1 implies m.drop_first()[j].0
            != k by {
            assert(m.drop_first()[j] == m[j + 1]);
        }
        lemma_remove_key_at(m.drop_first(), k, i - 1);
        assert(remove_key(m, k) =~= m.remove(i));
    }
}

/// A single cache entry.
struct CacheEntry<V> {
    key: String,
    value: V,
    inserted_at: u64,
}

/// A bounded key-value store whose entries expire `CACHE_TTL_SECONDS` after
/// insertion and whose oldest entry is evicted on overflow.
pub struct TtlCache<V> {
    entries: Vec<CacheEntry<V>>,
}

impl<V: View> View for TtlCache<V> {
    type V = Seq<(Seq<char>, <V as View>::V, u64)>;

    closed spec fn view(&self) -> Seq<(Seq<char>, <V as View>::V, u64)> {
        self.entries@.map_values(|e: CacheEntry<V>| (e.key@, e.value@, e.inserted_at))
    }
}

impl<V: View> TtlCache<V> {
    /// Well-formed store: distinct keys, within capacity.
    pub open spec fn wf(&self) -> bool {
        cache_wf(self@)
    }

    /// An empty store.
    pub fn new() -> (r: Self)
        ensures
            r@ =~= Seq::<(Seq<char>, <V as View>::V, u64)>::empty(),
            r.wf(),
    {
        let r = TtlCache { entries: Vec::new() };
        proof {
            assert(r@ =~= Seq::<(Seq<char>, <V as View>::V, u64)>::empty());
        }
        r
    }

    /// Index of the entry holding `key`, or the current length when absent.
    fn find(&self, key: &str) -> (i: usize)
        ensures
            i <= self.entries@.len(),
            i < self.entries@.len() ==> self@[i as int].0 == key@,
            forall|j: int| 0 <= j < i ==> self@[j].0 != key@,
    {
        let n: usize = self.entries.len();
        let mut i: usize = 0;
        while i < n
            invariant
                i <= n,
                n == self.entries@.len(),
                forall|j: int| 0 <= j < i ==> self@[j].0 != key@,
            decreases n - i,
        {
            proof {
                assert(self@[i as int] == (self.entries@[i as int].key@,
                self.entries@[i as int].value@, self.entries@[i as int].inserted_at));
            }
            if str_eq(self.entries[i].key.as_str(), key) {
                return i;
            }
            i = i + 1;
        }
        i
    }

    /// Returns the value stored under `key` while its entry is fresh at
    /// `now`; a miss and an expired entry both return nothing.
    pub fn get(&self, key: &str, now: u64) -> (r: Option<&V>)
        ensures
            match r {
                Some(v) => cache_get(self@, key@, now) == Some(v@),
                None => cache_get(self@, key@, now) is None,
            },
    {
        let i = self.find(key);
        proof {
            lemma_lookup_index_is(self@, key@, i as int);
        }
        if i < self.entries.len() {
            let e = &self.entries[i];
            proof {
                assert(self@[i as int] == (e.key@, e.value@, e.inserted_at));
            }
            if e.inserted_at <= now && now - e.inserted_at < CACHE_TTL_SECONDS {
                Some(&e.value)
            } else {
                None
            }
        } else {
            None
        }
    }

    /// Inserts or overwrites the entry for `key`, stamping it with `now`;
    /// evicts the oldest entry when the store would overflow.
    pub fn put(&mut self, key: &str, value: V, now: u64)
        requires
            old(self).wf(),
        ensures
            final(self)@ == cache_put(old(self)@, key@, value@, now),
            final(self).wf(),
    {
        let ghost m0 = self@;
        let i = self.find(key);
        if i < self.entries.len() {
            proof {
                assert forall|j: int| 0 <= j < m0.len() && j != i implies m0[j].0 != key@ by {
                    if j > i {
                        assert(m0[i as int].0 != m0[j].0);
                    }
                }
                lemma_remove_key_at(m0, key@, i as int);
            }
            self.entries.remove(i);
            proof {
                assert(self@ =~= m0.remove(i as int));
            }
        } else {
            proof {
                lemma_remove_key_absent(m0, key@);
            }
        }
        let ghost kept = self@;
        proof {
            assert(kept == remove_key(m0, key@));
            assert forall|a: int, b: int| 0 <= a < b < kept.len() implies kept[a].0 != kept[b].0 by {
                if i < m0.len() {
                    m0.remove_ensures(i as int);
                }
            }
            assert(kept.len() <= CACHE_CAPACITY);
        }
        if self.entries.len() >= CACHE_CAPACITY {
            self.entries.remove(0);
            proof {
                assert(self@ =~= kept.remove(0));
                assert(kept.remove(0) =~= kept.drop_first());
            }
        }
        let ghost bounded = self@;
        proof {
            assert(bounded == if kept.len() >= CACHE_CAPACITY {
                kept.drop_first()
            } else {
                kept
            });
        }
        self.entries.push(CacheEntry { key: key.to_owned(), value, inserted_at: now });
        proof {
            assert(self@ =~= bounded.push((key@, value@, now)));
            assert forall|a: int, b: int| 0 <= a < b < self@.len() implies self@[a].0 != self@[b].0
                by {
                if b < self@.len() - 1 {
                    assert(bounded[a] == self@[a] && bounded[b] == self@[b]);
                }
            }
        }
    }

    /// Drops every entry.
    pub fn invalidate_all(&mut self)
        ensures
            final(self)@ =~= Seq::<(Seq<char>, <V as View>::V, u64)>::empty(),
            final(self).wf(),
    {
        self.entries.clear();
        proof {
            assert(self@ =~= Seq::<(Seq<char>, <V as View>::V, u64)>::empty());
        }
    }

    /// How many entries are stored, expired ones included.
    pub fn entry_count(&self) -> (n: u64)
        ensures
            n == self@.len(),
    {
        self.entries.len() as u64
    }
}

/// A value written at `now` is read back unchanged at any `now2` inside the
/// TTL window.
pub proof fn lemma_cache_round_trip<T>(
    m: Seq<(Seq<char>, T, u64)>,
    k: Seq<char>,
    v: T,
    now: u64,
    now2: u64,
)
    requires
        entry_fresh(now, now2),
    ensures
        cache_get(cache_put(m, k, v, now), k, now2) == Some(v),
{
    let p = cache_put(m, k, v, now);
    lemma_remove_key_no_key(m, k);
    let kept = remove_key(m, k);
    let bounded = if kept.len() >= CACHE_CAPACITY {
        kept.drop_first()
    } else {
        kept
    };
    assert forall|j: int| 0 <= j < bounded.len() implies bounded[j].0 != k by {
        if kept.len() >= CACHE_CAPACITY {
            assert(bounded[j] == kept[j + 1]);
        }
    }
    lemma_lookup_index_is(p, k, bounded.len() as int);
}

/// A value written at `now` is no longer served once the TTL has elapsed
/// (nor before a clock that has gone backwards).
pub proof fn lemma_cache_expiry<T>(
    m: Seq<(Seq<char>, T, u64)>,
    k: Seq<char>,
    v: T,
    now: u64,
    now2: u64,
)
    requires
        !entry_fresh(now, now2),
    ensures
        cache_get(cache_put(m, k, v, now), k, now2) is None,
{
    let p = cache_put(m, k, v, now);
    lemma_remove_key_no_key(m, k);
    let kept = remove_key(m, k);
    let bounded = if kept.len() >= CACHE_CAPACITY {
        kept.drop_first()
    } else {
        kept
    };
    assert forall|j: int| 0 <= j < bounded.len() implies bounded[j].0 != k by {
        if kept.len() >= CACHE_CAPACITY {
            assert(bounded[j] == kept[j + 1]);
        }
    }
    lemma_lookup_index_is(p, k, bounded.len() as int);
}

/// Removing a key really removes every entry with that key.
pub proof fn lemma_remove_key_no_key<T>(m: Seq<(Seq<char>, T, u64)>, k: Seq<char>)
    ensures
        forall|j: int| 0 <= j < remove_key(m, k).len() ==> remove_key(m, k)[j].0 != k,
        remove_key(m, k).len() <= m.len(),
    decreases m.len(),
{
    if m.len() == 0 {
    } else {
        lemma_remove_key_no_key(m.drop_first(), k);
        if m[0].0 != k {
            assert forall|j: int| 0 <= j < remove_key(m, k).len() implies remove_key(m, k)[j].0 != k
                by {
                if j > 0 {
                    assert(remove_key(m, k)[j] == remove_key(m.drop_first(), k)[j - 1]);
                }
            }
        }
    }
}

/// Overwriting a key never grows the store: the count after a second `put`
/// of the same key equals the count after the first.
pub proof fn lemma_cache_put_same_key_count<T>(
    m: Seq<(Seq<char>, T, u64)>,
    k: Seq<char>,
    v: T,
    v2: T,
    now: u64,
    now2: u64,
)
    requires
        m.len() <= CACHE_CAPACITY,
    ensures
        cache_put(cache_put(m, k, v, now), k, v2, now2).len() == cache_put(m, k, v, now).len(),
{
    let p = cache_put(m, k, v, now);
    lemma_remove_key_no_key(m, k);
    let kept = remove_key(m, k);
    let bounded = if kept.len() >= CACHE_CAPACITY {
        kept.drop_first()
    } else {
        kept
    };
    assert forall|j: int| 0 <= j < bounded.len() implies bounded[j].0 != k by {
        if kept.len() >= CACHE_CAPACITY {
            assert(bounded[j] == kept[j + 1]);
        }
    }
    assert(p[p.len() - 1].0 == k);
    assert forall|j: int| 0 <= j < p.len() && j != p.len() - 1 implies p[j].0 != k by {
        assert(p[j] == bounded[j]);
    }
    lemma_remove_key_at(p, k, p.len() - 1);
    assert(remove_key(p, k) =~= bounded);
    assert(bounded.len() < CACHE_CAPACITY);
}

} // verus!
