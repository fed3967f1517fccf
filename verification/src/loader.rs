use vstd::prelude::*;

verus! {

use crate::LoadError;
use crate::LoadResult;

/// First-match lookup in an association sequence of canonical keys.
pub open spec fn lookup<V>(s: Seq<(Seq<char>, LoadResult<V>)>, k: Seq<char>) -> Option<
    LoadResult<V>,
>
    decreases s.len(),
{
    if s.len() <= 0 {
        None
    } else if s[0].0 == k {
        Some(s[0].1)
    } else {
        lookup(s.subrange(1, s.len() as int), k)
    }
}

/// The canonical keys of a sequence of owned key strings.
pub open spec fn key_views(s: Seq<String>) -> Seq<Seq<char>> {
    s.map(|i: int, k: String| k@)
}

/// The canonical view of a sequence of owned cache entries.
pub open spec fn entry_views<V>(s: Seq<(String, LoadResult<V>)>) -> Seq<
    (Seq<char>, LoadResult<V>),
> {
    s.map(|i: int, e: (String, LoadResult<V>)| (e.0@, e.1))
}

/// No key occurs twice.
pub open spec fn distinct_keys(s: Seq<Seq<char>>) -> bool {
    forall|i: int, j: int| 0 <= i < j < s.len() ==> s[i] != s[j]
}

/// Abstract state of one request-scoped loader: the write-once result cache
/// and the keys recorded as pending for the next batch dispatch, in arrival
/// order.
pub struct LoaderState<V> {
    pub cache: Seq<(Seq<char>, LoadResult<V>)>,
    pub pending: Seq<Seq<char>>,
}

impl<V> LoaderState<V> {
    /// Cache keys are distinct (entries are write-once), pending keys are
    /// distinct (a key already awaiting a batch is never queued twice), and no
    /// pending key is already resolved.
    pub open spec fn wf(self) -> bool {
        &&& distinct_keys(self.cache.map(|i: int, e: (Seq<char>, LoadResult<V>)| e.0))
        &&& distinct_keys(self.pending)
        &&& forall|i: int| 0 <= i < self.pending.len() ==> !self.cache_has(self.pending[i])
    }

    pub open spec fn cache_has(self, k: Seq<char>) -> bool {
        lookup(self.cache, k) is Some
    }

    pub open spec fn cache_at(self, k: Seq<char>) -> LoadResult<V> {
        lookup(self.cache, k)->Some_0
    }

    /// One `load`/`load_many` demand for a key: an already-resolved or
    /// already-pending key changes nothing; a new key joins the pending batch.
    pub open spec fn st_request(self, k: Seq<char>) -> LoaderState<V> {
        if self.cache_has(k) || self.pending.contains(k) {
            self
        } else {
            LoaderState { cache: self.cache, pending: self.pending.push(k) }
        }
    }

    /// Dispatching the accumulated batch: the pending set empties; the batch
    /// handed to the resolver is exactly `self.pending`.
    pub open spec fn st_take(self) -> LoaderState<V> {
        LoaderState { cache: self.cache, pending: Seq::empty() }
    }

    /// What one dispatched key resolves to, given the resolver's returned
    /// mapping: its first entry for that key, or a synthesized `NotFound` when
    /// the resolver omitted the key.
    pub open spec fn resolved(
        results: Seq<(Seq<char>, LoadResult<V>)>,
        k: Seq<char>,
    ) -> LoadResult<V> {
        match lookup(results, k) {
            Some(r) => r,
            None => Err(LoadError::NotFound),
        }
    }

    /// Batch completion: every dispatched key is written into the cache
    /// exactly once, resolved from the returned mapping; prior entries are
    /// never overwritten.
    pub open spec fn st_complete(
        self,
        batch: Seq<Seq<char>>,
        results: Seq<(Seq<char>, LoadResult<V>)>,
    ) -> LoaderState<V> {
        LoaderState {
            cache: self.cache + batch.map(
                |i: int, k: Seq<char>| (k, LoaderState::resolved(results, k)),
            ),
            pending: self.pending,
        }
    }

    /// A failed store round trip: partial success cannot be determined, so
    /// every key of the batch resolves to `StoreUnavailable`.
    pub open spec fn st_fail(self, batch: Seq<Seq<char>>) -> LoaderState<V> {
        LoaderState {
            cache: self.cache + batch.map(
                |i: int, k: Seq<char>| (k, Err::<V, LoadError>(LoadError::StoreUnavailable)),
            ),
            pending: self.pending,
        }
    }
}

/// `b` is what cloning a cached `a` may produce: equal failures, and a payload
/// related by `V::clone`'s contract.
pub open spec fn result_cloned<V: Clone>(a: LoadResult<V>, b: LoadResult<V>) -> bool {
    match (a, b) {
        (Ok(x), Ok(y)) => cloned::<V>(x, y),
        (Err(x), Err(y)) => y == x,
        _ => false,
    }
}

/// Request-scoped batching and caching front door to a batch resolver.  One
/// instance is exclusively owned by one request's context; entries are
/// write-once and never evicted for the lifetime of the request.
pub struct Loader<V> {
    entries: Vec<(String, LoadResult<V>)>,
    pending: Vec<String>,
}

impl<V> View for Loader<V> {
    type V = LoaderState<V>;

    closed spec fn view(&self) -> LoaderState<V> {
        LoaderState { cache: entry_views(self.entries@), pending: key_views(self.pending@) }
    }
}

/// First index of `key` among owned `(key, result)` pairs, with its meaning
/// for first-match lookup on the pairs' canonical view.
fn find_pair<V>(pairs: &Vec<(String, LoadResult<V>)>, key: &String) -> (r: Option<usize>)
    ensures
        match r {
            Some(j) => j < pairs@.len() && pairs@[j as int].0@ == key@ && (forall|jj: int|
                0 <= jj < j ==> pairs@[jj].0@ != key@) && lookup(entry_views(pairs@), key@)
                == Some(pairs@[j as int].1),
            None => lookup(entry_views(pairs@), key@) is None,
        },
{
    let ghost s = entry_views(pairs@);
    let mut j: usize = 0;
    while j < pairs.len()
        invariant
            j <= pairs@.len(),
            s == entry_views(pairs@),
            forall|jj: int| 0 <= jj < j ==> pairs@[jj].0@ != key@,
        decreases pairs@.len() - j,
    {
        if pairs[j].0 == *key {
            proof {
                lemma_lookup_at(s, key@, j as int);
            }
            return Some(j);
        }
        j += 1;
    }
    proof {
        lemma_lookup_none(s, key@);
    }
    None
}

proof fn lemma_lookup_at<V>(s: Seq<(Seq<char>, LoadResult<V>)>, k: Seq<char>, i: int)
    requires
        0 <= i < s.len(),
        s[i].0 == k,
        forall|j: int| 0 <= j < i ==> s[j].0 != k,
    ensures
        lookup(s, k) == Some(s[i].1),
    decreases i,
{
    if i > 0 {
        lemma_lookup_at(s.subrange(1, s.len() as int), k, i - 1);
    }
}

proof fn lemma_index_lookup<V>(s: Seq<(Seq<char>, LoadResult<V>)>, k: Seq<char>, i: int)
    requires
        0 <= i < s.len(),
        s[i].0 == k,
    ensures
        lookup(s, k) is Some,
    decreases i,
{
    if s[0].0 != k {
        lemma_index_lookup(s.subrange(1, s.len() as int), k, i - 1);
    }
}

proof fn lemma_lookup_none<V>(s: Seq<(Seq<char>, LoadResult<V>)>, k: Seq<char>)
    requires
        forall|j: int| 0 <= j < s.len() ==> s[j].0 != k,
    ensures
        lookup(s, k) is None,
    decreases s.len(),
{
    if s.len() > 0 {
        lemma_lookup_none(s.subrange(1, s.len() as int), k);
    }
}

/// Looking a key up in a concatenation finds the left side's entry first.
proof fn lemma_lookup_append<V>(
    s: Seq<(Seq<char>, LoadResult<V>)>,
    t: Seq<(Seq<char>, LoadResult<V>)>,
    k: Seq<char>,
)
    ensures
        lookup(s + t, k) == if lookup(s, k) is Some {
            lookup(s, k)
        } else {
            lookup(t, k)
        },
    decreases s.len(),
{
    if s.len() == 0 {
        assert(s + t =~= t);
    } else {
        lemma_lookup_append(s.subrange(1, s.len() as int), t, k);
        assert((s + t).subrange(1, (s + t).len() as int) =~= s.subrange(1, s.len() as int) + t);
    }
}

/// Removing an entry whose key is not `k` leaves `k`'s first match unchanged.
proof fn lemma_lookup_remove<V>(s: Seq<(Seq<char>, LoadResult<V>)>, j: int, k: Seq<char>)
    requires
        0 <= j < s.len(),
        s[j].0 != k,
    ensures
        lookup(s.remove(j), k) == lookup(s, k),
    decreases j,
{
    if j == 0 {
        assert(s.remove(0) =~= s.subrange(1, s.len() as int));
    } else {
        assert(s.remove(j).subrange(1, s.remove(j).len() as int) =~= s.subrange(
            1,
            s.len() as int,
        ).remove(j - 1));
        lemma_lookup_remove(s.subrange(1, s.len() as int), j - 1, k);
    }
}

/// In a keyed mapping built from a key sequence, looking a contained key up
/// yields exactly its mapped value.
proof fn lemma_lookup_keyed<V>(
    batch: Seq<Seq<char>>,
    results: Seq<(Seq<char>, LoadResult<V>)>,
    k: Seq<char>,
)
    ensures
        batch.contains(k) ==> lookup(
            batch.map(|i: int, kk: Seq<char>| (kk, LoaderState::resolved(results, kk))),
            k,
        ) == Some(LoaderState::<V>::resolved(results, k)),
        !batch.contains(k) ==> lookup(
            batch.map(|i: int, kk: Seq<char>| (kk, LoaderState::resolved(results, kk))),
            k,
        ) is None,
    decreases batch.len(),
{
    let m = batch.map(|i: int, kk: Seq<char>| (kk, LoaderState::resolved(results, kk)));
    if batch.len() > 0 {
        let sub = batch.subrange(1, batch.len() as int);
        lemma_lookup_keyed(sub, results, k);
        assert(m.subrange(1, m.len() as int) =~= sub.map(
            |i: int, kk: Seq<char>| (kk, LoaderState::resolved(results, kk)),
        ));
        if batch[0] != k {
            assert(batch.contains(k) <==> sub.contains(k)) by {
                if batch.contains(k) {
                    let i = choose|i: int| 0 <= i < batch.len() && batch[i] == k;
                    assert(sub[i - 1] == k);
                }
                if sub.contains(k) {
                    let i = choose|i: int| 0 <= i < sub.len() && sub[i] == k;
                    assert(batch[i + 1] == k);
                }
            }
        }
    }
}

/// How batch completion reads back: a dispatched key resolves from the
/// returned mapping (`NotFound` synthesized where the mapping omits it, which
/// is the negative-result law), and every other key keeps its prior state.
pub proof fn lemma_complete_lookup<V>(
    s: LoaderState<V>,
    batch: Seq<Seq<char>>,
    results: Seq<(Seq<char>, LoadResult<V>)>,
    k: Seq<char>,
)
    ensures
        batch.contains(k) && !s.cache_has(k) ==> s.st_complete(batch, results).cache_has(k)
            && s.st_complete(batch, results).cache_at(k) == LoaderState::<V>::resolved(results, k),
        !batch.contains(k) || s.cache_has(k) ==> s.st_complete(batch, results).cache_has(k)
            == s.cache_has(k),
        s.cache_has(k) ==> s.st_complete(batch, results).cache_at(k) == s.cache_at(k),
{
    let m = batch.map(|i: int, kk: Seq<char>| (kk, LoaderState::resolved(results, kk)));
    lemma_lookup_append(s.cache, m, k);
    lemma_lookup_keyed(batch, results, k);
}

/// Negative-result synthesis: a dispatched key that the resolver's mapping
/// omits is cached as `NotFound`, without the resolver emitting it.
pub proof fn lemma_negative_synthesis<V>(
    s: LoaderState<V>,
    batch: Seq<Seq<char>>,
    results: Seq<(Seq<char>, LoadResult<V>)>,
    k: Seq<char>,
)
    requires
        batch.contains(k),
        !s.cache_has(k),
        lookup(results, k) is None,
    ensures
        s.st_complete(batch, results).cache_has(k),
        s.st_complete(batch, results).cache_at(k) == Err::<V, LoadError>(LoadError::NotFound),
{
    lemma_complete_lookup(s, batch, results, k);
}

/// The cache written by a completion depends on the resolver's mapping only
/// through per-key first-match lookup: two returned sequences that agree on
/// every key (whatever their internal order) produce the same cache.
pub proof fn lemma_complete_order_independent<V>(
    s: LoaderState<V>,
    batch: Seq<Seq<char>>,
    r1: Seq<(Seq<char>, LoadResult<V>)>,
    r2: Seq<(Seq<char>, LoadResult<V>)>,
)
    requires
        forall|k: Seq<char>| batch.contains(k) ==> lookup(r1, k) == lookup(r2, k),
    ensures
        s.st_complete(batch, r1) == s.st_complete(batch, r2),
{
    assert(batch.map(|i: int, kk: Seq<char>| (kk, LoaderState::resolved(r1, kk))) =~= batch.map(
        |i: int, kk: Seq<char>| (kk, LoaderState::resolved(r2, kk)),
    )) by {
        assert forall|i: int| 0 <= i < batch.len() implies LoaderState::<V>::resolved(r1, batch[i])
            == LoaderState::<V>::resolved(r2, batch[i]) by {
            assert(batch.contains(batch[i]));
        }
    }
    assert(s.st_complete(batch, r1) =~= s.st_complete(batch, r2));
}

/// Requesting a key twice is the same as requesting it once: the second
/// demand shares the first's pending slot or cached outcome.
pub proof fn lemma_request_idempotent<V>(s: LoaderState<V>, k: Seq<char>)
    ensures
        s.st_request(k).st_request(k) == s.st_request(k),
{
    if !(s.cache_has(k) || s.pending.contains(k)) {
        assert(s.st_request(k).pending.contains(k)) by {
            assert(s.st_request(k).pending.last() == k);
        }
    }
}

/// A key that is already resolved never re-enters the pending set, so no
/// second store round trip can ever be issued for it within the request.
pub proof fn lemma_cached_key_not_redispatched<V>(s: LoaderState<V>, k: Seq<char>)
    requires
        s.cache_has(k),
    ensures
        s.st_request(k) == s,
        s.wf() ==> !s.pending.contains(k),
{
    if s.wf() && s.pending.contains(k) {
        let i = choose|i: int| 0 <= i < s.pending.len() && s.pending[i] == k;
        assert(!s.cache_has(s.pending[i]));
    }
}

/// Requesting each key of a wave in turn, before any dispatch.
pub open spec fn st_request_all<V>(s: LoaderState<V>, ks: Seq<Seq<char>>) -> LoaderState<V>
    decreases ks.len(),
{
    if ks.len() == 0 {
        s
    } else {
        st_request_all(s.st_request(ks[0]), ks.subrange(1, ks.len() as int))
    }
}

/// Batch coalescing: all loads issued in one wave for distinct keys that are
/// neither cached nor already pending accumulate into the one pending batch,
/// and the cache is untouched -- the wave costs a single dispatch.
pub proof fn lemma_batch_coalescing<V>(s: LoaderState<V>, ks: Seq<Seq<char>>)
    requires
        distinct_keys(ks),
        forall|i: int| 0 <= i < ks.len() ==> !s.cache_has(ks[i]),
        forall|i: int| 0 <= i < ks.len() ==> !s.pending.contains(ks[i]),
    ensures
        st_request_all(s, ks).cache == s.cache,
        st_request_all(s, ks).pending == s.pending + ks,
    decreases ks.len(),
{
    if ks.len() == 0 {
        assert(s.pending + ks =~= s.pending);
    } else {
        let s1 = s.st_request(ks[0]);
        let sub = ks.subrange(1, ks.len() as int);
        assert(s1.pending == s.pending.push(ks[0]));
        assert forall|i: int| 0 <= i < sub.len() implies !s1.pending.contains(sub[i]) by {
            assert(sub[i] == ks[i + 1]);
            if s1.pending.contains(sub[i]) {
                let j = choose|j: int| 0 <= j < s1.pending.len() && s1.pending[j] == sub[i];
                if j < s.pending.len() {
                    assert(s.pending.contains(ks[i + 1]));
                } else {
                    assert(ks[0] == ks[i + 1]);
                }
            }
        }
        assert forall|i: int| 0 <= i < sub.len() implies !s1.cache_has(sub[i]) by {
            assert(sub[i] == ks[i + 1]);
        }
        lemma_batch_coalescing(s1, sub);
        assert(s.pending.push(ks[0]) + sub =~= s.pending + ks);
    }
}

impl<V> Loader<V> {
    /// A fresh per-request loader: empty cache, nothing pending.
    pub fn new() -> (l: Loader<V>)
        ensures
            l@.cache == Seq::<(Seq<char>, LoadResult<V>)>::empty(),
            l@.pending == Seq::<Seq<char>>::empty(),
            l@.wf(),
    {
        let l = Loader { entries: Vec::new(), pending: Vec::new() };
        proof {
            assert(l@.cache =~= Seq::<(Seq<char>, LoadResult<V>)>::empty());
            assert(l@.pending =~= Seq::<Seq<char>>::empty());
        }
        l
    }

    /// First index of `key` among the cached entries, with its meaning for
    /// first-match lookup.
    fn find_entry(&self, key: &String) -> (r: Option<usize>)
        ensures
            match r {
                Some(j) => j < self.entries@.len() && self.entries@[j as int].0@ == key@ && lookup(
                    self@.cache,
                    key@,
                ) == Some(self.entries@[j as int].1),
                None => !self@.cache_has(key@),
            },
    {
        find_pair(&self.entries, key)
    }

    /// Whether `key` is already queued for the next batch.
    fn find_pending(&self, key: &String) -> (r: bool)
        ensures
            r == self@.pending.contains(key@),
    {
        let mut j: usize = 0;
        while j < self.pending.len()
            invariant
                j <= self.pending@.len(),
                forall|jj: int| 0 <= jj < j ==> self.pending@[jj]@ != key@,
            decreases self.pending@.len() - j,
        {
            if self.pending[j] == *key {
                proof {
                    assert(self@.pending[j as int] == key@);
                }
                return true;
            }
            j += 1;
        }
        proof {
            if self@.pending.contains(key@) {
                let i = choose|i: int| 0 <= i < self@.pending.len() && self@.pending[i] == key@;
                assert(self.pending@[i]@ == key@);
            }
        }
        false
    }

    /// The resolved value cached for `key`, if its batch has completed.
    /// Repeated reads return the identical entry: the cache is write-once and
    /// never evicted within the request.
    pub fn get<'a>(&'a self, key: &String) -> (r: Option<&'a LoadResult<V>>)
        ensures
            match r {
                Some(v) => self@.cache_has(key@) && *v == self@.cache_at(key@),
                None => !self@.cache_has(key@),
            },
    {
        match self.find_entry(key) {
            Some(j) => Some(&self.entries[j].1),
            None => None,
        }
    }

    /// Record one demand for `key`.  A key already resolved or already pending
    /// leaves the state unchanged -- the demand shares the earlier outcome; a
    /// new key joins the batch that the next dispatch will carry.
    pub fn request(&mut self, key: &String)
        requires
            old(self)@.wf(),
        ensures
            final(self)@ == old(self)@.st_request(key@),
            final(self)@.wf(),
    {
        let cached = self.find_entry(key).is_some();
        if !cached && !self.find_pending(key) {
            self.pending.push(key.clone());
            proof {
                assert(self@.pending =~= old(self)@.pending.push(key@));
                assert(self@ == old(self)@.st_request(key@));
                assert forall|i: int| 0 <= i < self@.pending.len() implies !self@.cache_has(
                    self@.pending[i],
                ) by {
                    if i < old(self)@.pending.len() {
                        assert(old(self)@.pending[i] == self@.pending[i]);
                    }
                }
            }
        } else {
            proof {
                assert(self@ == old(self)@.st_request(key@));
            }
        }
    }

    /// Dispatch boundary of one wave: hand back every pending key, exactly
    /// once each, and clear the pending set.  One call stands for one store
    /// round trip, whatever the number of loads that accumulated the batch.
    pub fn take_batch(&mut self) -> (batch: Vec<String>)
        requires
            old(self)@.wf(),
        ensures
            key_views(batch@) == old(self)@.pending,
            distinct_keys(key_views(batch@)),
            forall|i: int|
                0 <= i < batch@.len() ==> !final(self)@.cache_has(batch@[i]@) && !final(
                    self
                )@.pending.contains(batch@[i]@),
            final(self)@ == old(self)@.st_take(),
            final(self)@.wf(),
    {
        let mut batch: Vec<String> = Vec::new();
        core::mem::swap(&mut batch, &mut self.pending);
        proof {
            assert(self@.pending =~= Seq::<Seq<char>>::empty());
            assert(self@ == old(self)@.st_take());
            assert forall|i: int| 0 <= i < batch@.len() implies !self@.cache_has(batch@[i]@) by {
                assert(old(self)@.pending[i] == batch@[i]@);
            }
        }
        batch
    }

    /// Write one resolved batch into the cache: each dispatched key gets its
    /// first entry from the resolver's returned mapping, or `NotFound` where
    /// the mapping omits it.  Entries already cached are never overwritten,
    /// and extra mapping entries for keys nobody dispatched are ignored.
    pub fn complete(&mut self, batch: &Vec<String>, results: Vec<(String, LoadResult<V>)>)
        requires
            old(self)@.wf(),
            distinct_keys(key_views(batch@)),
            forall|i: int|
                0 <= i < batch@.len() ==> !old(self)@.cache_has(batch@[i]@)
                    && !old(self)@.pending.contains(batch@[i]@),
        ensures
            final(self)@ == old(self)@.st_complete(key_views(batch@), entry_views(results@)),
            final(self)@.wf(),
    {
        let ghost rs0 = entry_views(results@);
        let ghost bk = key_views(batch@);
        let mut results = results;
        let mut i: usize = 0;
        while i < batch.len()
            invariant
                i <= batch@.len(),
                old(self)@.wf(),
                distinct_keys(bk),
                bk == key_views(batch@),
                forall|ii: int|
                    0 <= ii < batch@.len() ==> !old(self)@.cache_has(bk[ii])
                        && !old(self)@.pending.contains(bk[ii]),
                self@.pending == old(self)@.pending,
                self@.cache =~= old(self)@.cache + bk.subrange(0, i as int).map(
                    |ii: int, k: Seq<char>| (k, LoaderState::resolved(rs0, k)),
                ),
                forall|ii: int|
                    i <= ii < batch@.len() ==> lookup(entry_views(results@), bk[ii]) == lookup(
                        rs0,
                        bk[ii],
                    ),
            decreases batch@.len() - i,
        {
            let ghost pre_cache = self@.cache;
            let ghost pre_results = entry_views(results@);
            let k = &batch[i];
            match find_pair(&results, k) {
                Some(j) => {
                    let (kk, v) = results.remove(j);
                    self.entries.push((kk, v));
                    proof {
                        assert(entry_views(results@) =~= pre_results.remove(j as int));
                        assert forall|ii: int|
                            i + 1 <= ii < batch@.len() implies lookup(
                            entry_views(results@),
                            bk[ii],
                        ) == lookup(rs0, bk[ii]) by {
                            assert(bk[ii] != bk[i as int]);
                            lemma_lookup_remove(pre_results, j as int, bk[ii]);
                        }
                        assert(self@.cache =~= pre_cache.push(
                            (k@, LoaderState::resolved(rs0, k@)),
                        ));
                    }
                },
                None => {
                    self.entries.push((k.clone(), Err(LoadError::NotFound)));
                    proof {
                        assert(self@.cache =~= pre_cache.push(
                            (k@, LoaderState::resolved(rs0, k@)),
                        ));
                    }
                },
            }
            proof {
                assert(self@.cache =~= old(self)@.cache + bk.subrange(0, i as int + 1).map(
                    |ii: int, kc: Seq<char>| (kc, LoaderState::resolved(rs0, kc)),
                ));
            }
            i += 1;
        }
        proof {
            assert(bk.subrange(0, batch@.len() as int) =~= bk);
            assert(self@.cache =~= old(self)@.st_complete(bk, rs0).cache);
            assert(self@ == old(self)@.st_complete(bk, rs0));
            let add = bk.map(|ii: int, kc: Seq<char>| (kc, LoaderState::resolved(rs0, kc)));
            assert(add.map(|ii: int, e: (Seq<char>, LoadResult<V>)| e.0) =~= bk);
            lemma_wf_extend(old(self)@, add);
        }
    }

    /// A failed round trip resolves every key of the batch to
    /// `StoreUnavailable`; partial batch success cannot be determined.
    pub fn fail_batch(&mut self, batch: &Vec<String>)
        requires
            old(self)@.wf(),
            distinct_keys(key_views(batch@)),
            forall|i: int|
                0 <= i < batch@.len() ==> !old(self)@.cache_has(batch@[i]@)
                    && !old(self)@.pending.contains(batch@[i]@),
        ensures
            final(self)@ == old(self)@.st_fail(key_views(batch@)),
            final(self)@.wf(),
    {
        let ghost bk = key_views(batch@);
        let mut i: usize = 0;
        while i < batch.len()
            invariant
                i <= batch@.len(),
                old(self)@.wf(),
                distinct_keys(bk),
                bk == key_views(batch@),
                forall|ii: int|
                    0 <= ii < batch@.len() ==> !old(self)@.cache_has(bk[ii])
                        && !old(self)@.pending.contains(bk[ii]),
                self@.pending == old(self)@.pending,
                self@.cache =~= old(self)@.cache + bk.subrange(0, i as int).map(
                    |ii: int, k: Seq<char>| (k, Err::<V, LoadError>(LoadError::StoreUnavailable)),
                ),
            decreases batch@.len() - i,
        {
            let ghost pre_cache = self@.cache;
            self.entries.push((batch[i].clone(), Err(LoadError::StoreUnavailable)));
            proof {
                assert(self@.cache =~= pre_cache.push(
                    (bk[i as int], Err::<V, LoadError>(LoadError::StoreUnavailable)),
                ));
                assert(self@.cache =~= old(self)@.cache + bk.subrange(0, i as int + 1).map(
                    |ii: int, k: Seq<char>| (k, Err::<V, LoadError>(LoadError::StoreUnavailable)),
                ));
            }
            i += 1;
        }
        proof {
            assert(bk.subrange(0, batch@.len() as int) =~= bk);
            assert(self@.cache =~= old(self)@.st_fail(bk).cache);
            assert(self@ == old(self)@.st_fail(bk));
            let add = bk.map(
                |ii: int, kc: Seq<char>| (kc, Err::<V, LoadError>(LoadError::StoreUnavailable)),
            );
            assert(add.map(|ii: int, e: (Seq<char>, LoadResult<V>)| e.0) =~= bk);
            lemma_wf_extend(old(self)@, add);
        }
    }

}

/// Appending a block of entries whose keys are distinct, unresolved and not
/// pending keeps the loader state well formed.
proof fn lemma_wf_extend<V>(pre: LoaderState<V>, add: Seq<(Seq<char>, LoadResult<V>)>)
    requires
        pre.wf(),
        distinct_keys(add.map(|i: int, e: (Seq<char>, LoadResult<V>)| e.0)),
        forall|i: int| 0 <= i < add.len() ==> !pre.cache_has(#[trigger] add[i].0),
        forall|i: int| 0 <= i < add.len() ==> !pre.pending.contains(#[trigger] add[i].0),
    ensures
        (LoaderState { cache: pre.cache + add, pending: pre.pending }).wf(),
{
    let post = (LoaderState { cache: pre.cache + add, pending: pre.pending });
    let keys = post.cache.map(|i: int, e: (Seq<char>, LoadResult<V>)| e.0);
    let pre_keys = pre.cache.map(|i: int, e: (Seq<char>, LoadResult<V>)| e.0);
    let add_keys = add.map(|i: int, e: (Seq<char>, LoadResult<V>)| e.0);
    let n = pre.cache.len() as int;
    assert forall|i: int, j: int| 0 <= i < j < keys.len() implies keys[i] != keys[j] by {
        if j < n {
            assert(pre_keys[i] != pre_keys[j]);
        } else if i >= n {
            assert(add_keys[i - n] != add_keys[j - n]);
        } else {
            if keys[i] == keys[j] {
                assert(!pre.cache_has(add[j - n].0));
                lemma_index_lookup(pre.cache, pre.cache[i].0, i);
            }
        }
    }
    assert forall|i: int| 0 <= i < post.pending.len() implies !post.cache_has(
        post.pending[i],
    ) by {
        let k = post.pending[i];
        assert(!pre.cache_has(k));
        assert forall|j: int| 0 <= j < add.len() implies add[j].0 != k by {
            assert(!pre.pending.contains(add[j].0));
        }
        lemma_lookup_none(add, k);
        lemma_lookup_append(pre.cache, add, k);
    }
}

impl<V: Clone> Loader<V> {
    /// Ordered multi-key read of resolved keys: results come back in the
    /// order of the requested keys, duplicates allowed, whatever order the
    /// resolver produced them in.  Each returned element is the cached
    /// entry's clone: failures exactly, payloads as `V::clone` promises.
    pub fn get_many(&self, keys: &Vec<String>) -> (r: Vec<LoadResult<V>>)
        requires
            forall|i: int| 0 <= i < keys@.len() ==> self@.cache_has(keys@[i]@),
        ensures
            r@.len() == keys@.len(),
            forall|i: int|
                0 <= i < keys@.len() ==> result_cloned(self@.cache_at(keys@[i]@), r@[i]),
    {
        let mut r: Vec<LoadResult<V>> = Vec::new();
        let mut i: usize = 0;
        while i < keys.len()
            invariant
                i <= keys@.len(),
                r@.len() == i,
                forall|ii: int| 0 <= ii < keys@.len() ==> self@.cache_has(keys@[ii]@),
                forall|ii: int|
                    0 <= ii < i ==> result_cloned(self@.cache_at(keys@[ii]@), r@[ii]),
            decreases keys@.len() - i,
        {
            match self.find_entry(&keys[i]) {
                Some(j) => {
                    let e = match &self.entries[j].1 {
                        Ok(v) => Ok(v.clone()),
                        Err(e) => Err(*e),
                    };
                    r.push(e);
                },
                None => {
                    proof {
                        // contradicts the precondition: the key is cached
                        assert(false);
                    }
                    r.push(Err(LoadError::NotFound));
                },
            }
            i += 1;
        }
        r
    }
}

} // verus!
