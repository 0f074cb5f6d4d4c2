use vstd::prelude::*;

verus! {

/// The attempts recorded under one key, as clock readings in nanoseconds.
#[derive(Debug)]
pub struct Bucket {
    pub key: String,
    pub hits: Vec<u128>,
}

/// A sliding-window limiter: at most `limit` admitted attempts per key
/// within any `window`. It is process-local, so nothing that must hold
/// across service instances rests on it.
#[derive(Debug)]
pub struct RateLimiter {
    pub buckets: Vec<Bucket>,
}

/// The readings that still fall in the window ending at `now`.
pub open spec fn recent(hits: Seq<u128>, now: u128, window: u128) -> Seq<u128>
    decreases hits.len(),
{
    if hits.len() == 0 {
        hits
    } else {
        let rest = recent(hits.drop_last(), now, window);
        if now <= hits.last() + window {
            rest.push(hits.last())
        } else {
            rest
        }
    }
}

/// Relies on `SystemTime::elapsed` of the Unix epoch: the wall clock in
/// nanoseconds, 0 when it stands before the epoch. Nothing is promised of
/// the value.
#[verifier::external_body]
fn clock_nanos() -> (r: u128) {
    std::time::UNIX_EPOCH.elapsed().map(|d| d.as_nanos()).unwrap_or(0)
}

impl RateLimiter {
    pub open spec fn wf(&self) -> bool {
        forall|i: int, j: int|
            #![trigger self.buckets@[i], self.buckets@[j]]
            0 <= i < self.buckets@.len() && 0 <= j < self.buckets@.len() && self.buckets@[i].key@
                == self.buckets@[j].key@ ==> i == j
    }

    /// The readings recorded under the key; none for an unknown key.
    pub open spec fn hits_for(&self, key: Seq<char>) -> Seq<u128> {
        if exists|i: int| 0 <= i < self.buckets@.len() && (#[trigger] self.buckets@[i]).key@ == key {
            self.buckets@[choose|i: int| 0 <= i < self.buckets@.len() && (#[trigger] self.buckets@[i]).key@
                == key].hits@
        } else {
            Seq::empty()
        }
    }

    /// One attempt at `now` against the state `self`, leaving `after`.
    pub open spec fn attempt(
        &self,
        after: &RateLimiter,
        key: Seq<char>,
        limit: usize,
        window: u128,
        now: u128,
        admitted: bool,
    ) -> bool {
        let kept = recent(self.hits_for(key), now, window);
        &&& admitted == (kept.len() < limit)
        &&& after.hits_for(key) == if admitted { kept.push(now) } else { kept }
        &&& forall|k: Seq<char>| k != key ==> #[trigger] after.hits_for(k) == self.hits_for(k)
    }

    pub fn new() -> (r: RateLimiter)
        ensures
            r.wf(),
            forall|k: Seq<char>| #[trigger] r.hits_for(k) == Seq::<u128>::empty(),
    {
        RateLimiter { buckets: Vec::new() }
    }

    proof fn lemma_hits_at(&self, i: int)
        requires
            self.wf(),
            0 <= i < self.buckets@.len(),
        ensures
            self.hits_for(self.buckets@[i].key@) == self.buckets@[i].hits@,
    {
        let key = self.buckets@[i].key@;
        assert(exists|j: int| 0 <= j < self.buckets@.len() && (#[trigger] self.buckets@[j]).key@ == key);
        let j = choose|j: int| 0 <= j < self.buckets@.len() && (#[trigger] self.buckets@[j]).key@ == key;
        assert(self.buckets@[i].key@ == self.buckets@[j].key@);
    }

    /// Admits the attempt if fewer than `limit` recorded attempts under the
    /// key fall in the window ending at `now`; older ones are forgotten and
    /// an admitted attempt is recorded.
    pub fn check_at(&mut self, key: String, limit: usize, window: u128, now: u128) -> (admitted: bool)
        requires
            old(self).wf(),
        ensures
            final(self).wf(),
            old(self).attempt(final(self), key@, limit, window, now, admitted),
    {
        let found = self.find_bucket(&key);
        if found.is_none() {
            let i = self.buckets.len();
            let ghost before = *self;
            self.buckets.push(Bucket { key, hits: Vec::new() });
            proof {
                let n = before.buckets@.len();
                assert forall|a: int, b: int|
                    0 <= a < self.buckets@.len() && 0 <= b < self.buckets@.len()
                        && (#[trigger] self.buckets@[a]).key@ == (#[trigger] self.buckets@[b]).key@ implies a == b by {
                    if a < n && b < n {
                        assert(before.buckets@[a].key@ == before.buckets@[b].key@);
                    }
                }
                assert forall|k: Seq<char>| k != self.buckets@[n as int].key@ implies #[trigger] self.hits_for(k)
                    == before.hits_for(k) by {
                    if exists|j: int| 0 <= j < before.buckets@.len() && (#[trigger] before.buckets@[j]).key@ == k {
                        let j = choose|j: int| 0 <= j < before.buckets@.len() && (#[trigger] before.buckets@[j]).key@ == k;
                        before.lemma_hits_at(j);
                        assert(self.buckets@[j] == before.buckets@[j]);
                        self.lemma_hits_at(j);
                    } else {
                        if exists|j: int| 0 <= j < self.buckets@.len() && (#[trigger] self.buckets@[j]).key@ == k {
                            let j = choose|j: int| 0 <= j < self.buckets@.len() && (#[trigger] self.buckets@[j]).key@ == k;
                            assert(j < n);
                            assert(before.buckets@[j] == self.buckets@[j]);
                        }
                    }
                }
                self.lemma_hits_at(n as int);
                assert(before.hits_for(self.buckets@[n as int].key@) == Seq::<u128>::empty());
            }
            return self.record(i, limit, window, now);
        }
        let i = found.unwrap();
        proof {
            self.lemma_hits_at(i as int);
        }
        self.record(i, limit, window, now)
    }

    fn find_bucket(&self, key: &String) -> (r: Option<usize>)
        ensures
            match r {
                Some(i) => i < self.buckets@.len() && self.buckets@[i as int].key@ == key@,
                None => forall|k: int| 0 <= k < self.buckets@.len() ==> (#[trigger] self.buckets@[k]).key@ != key@,
            },
    {
        let mut i: usize = 0;
        while i < self.buckets.len()
            invariant
                i <= self.buckets@.len(),
                forall|k: int| 0 <= k < i ==> (#[trigger] self.buckets@[k]).key@ != key@,
            decreases self.buckets@.len() - i,
        {
            if self.buckets[i].key == *key {
                return Some(i);
            }
            i = i + 1;
        }
        None
    }

    fn record(&mut self, i: usize, limit: usize, window: u128, now: u128) -> (admitted: bool)
        requires
            old(self).wf(),
            i < old(self).buckets@.len(),
        ensures
            final(self).wf(),
            old(self).attempt(final(self), old(self).buckets@[i as int].key@, limit, window, now, admitted),
    {
        let ghost before = *self;
        proof {
            before.lemma_hits_at(i as int);
        }
        let mut bucket = self.buckets.remove(i);
        let mut kept: Vec<u128> = Vec::new();
        let mut j: usize = 0;
        while j < bucket.hits.len()
            invariant
                j <= bucket.hits@.len(),
                kept@ == recent(bucket.hits@.subrange(0, j as int), now, window),
            decreases bucket.hits@.len() - j,
        {
            let t = bucket.hits[j];
            proof {
                assert(bucket.hits@.subrange(0, j + 1).drop_last() =~= bucket.hits@.subrange(0, j as int));
            }
            if t >= now || now - t <= window {
                kept.push(t);
            }
            j = j + 1;
        }
        proof {
            assert(bucket.hits@.subrange(0, j as int) =~= bucket.hits@);
        }
        let admitted = kept.len() < limit;
        if admitted {
            kept.push(now);
        }
        bucket.hits = kept;
        self.buckets.insert(i, bucket);
        proof {
            assert(self.buckets@ =~= before.buckets@.update(i as int, self.buckets@[i as int]));
            assert forall|a: int, b: int|
                0 <= a < self.buckets@.len() && 0 <= b < self.buckets@.len()
                    && (#[trigger] self.buckets@[a]).key@ == (#[trigger] self.buckets@[b]).key@ implies a == b by {
                assert(before.buckets@[a].key@ == before.buckets@[b].key@);
            }
            self.lemma_hits_at(i as int);
            let key = before.buckets@[i as int].key@;
            assert forall|k: Seq<char>| k != key implies #[trigger] self.hits_for(k) == before.hits_for(k) by {
                if exists|x: int| 0 <= x < before.buckets@.len() && (#[trigger] before.buckets@[x]).key@ == k {
                    let x = choose|x: int| 0 <= x < before.buckets@.len() && (#[trigger] before.buckets@[x]).key@ == k;
                    before.lemma_hits_at(x);
                    assert(x != i);
                    assert(self.buckets@[x] == before.buckets@[x]);
                    self.lemma_hits_at(x);
                } else {
                    if exists|x: int| 0 <= x < self.buckets@.len() && (#[trigger] self.buckets@[x]).key@ == k {
                        let x = choose|x: int| 0 <= x < self.buckets@.len() && (#[trigger] self.buckets@[x]).key@ == k;
                        assert(x != i);
                        assert(before.buckets@[x] == self.buckets@[x]);
                    }
                }
            }
        }
        admitted
    }

    /// `check_at` at the current wall-clock reading; `window` is in
    /// nanoseconds.
    pub fn check(&mut self, key: String, limit: usize, window: u128) -> (admitted: bool)
        requires
            old(self).wf(),
        ensures
            final(self).wf(),
            exists|now: u128| old(self).attempt(final(self), key@, limit, window, now, admitted),
    {
        let now = clock_nanos();
        self.check_at(key, limit, window, now)
    }
}

/// State shared by the request handlers of one service instance.
#[derive(Debug)]
pub struct AppState {
    pub rate_limiter: RateLimiter,
}

impl AppState {
    pub fn new() -> (r: AppState)
        ensures
            r.rate_limiter.wf(),
            forall|k: Seq<char>| #[trigger] r.rate_limiter.hits_for(k) == Seq::<u128>::empty(),
    {
        AppState { rate_limiter: RateLimiter::new() }
    }
}

} // verus!
