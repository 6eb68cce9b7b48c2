//! A single-value cache with a time-to-live, refreshed lazily by its callers.
//!
//! Times are nanoseconds on a monotonic clock that the caller reads. The caller serializes
//! access (one shared lock for the fast path, one exclusive lock for a refresh).

use vstd::prelude::*;

verus! {

/// Time elapsed from `ts` to `now`, or zero when `now` is earlier (`Instant::elapsed`).
pub open spec fn spec_elapsed(now: u64, ts: u64) -> int {
    if now >= ts { now - ts } else { 0 }
}

/// The cache after a refresh with outcome `result` at `now`: a new value replaces the entry,
/// stamped `now`; a failure leaves the cache as it was.
pub open spec fn spec_refreshed<T, E>(c: CacheCell<T>, result: Result<T, E>, now: u64) -> CacheCell<T> {
    match result {
        Ok(v) => CacheCell { entry: Some((v, now)) },
        Err(_) => c,
    }
}

/// At most one value together with the time it was produced.
pub struct CacheCell<T> {
    pub entry: Option<(T, u64)>,
}

impl<T> CacheCell<T> {
    /// The value that is still fresh at `now` under `ttl`, if any.
    pub open spec fn spec_fresh(&self, now: u64, ttl: u64) -> Option<T> {
        match self.entry {
            Some((v, ts)) => if spec_elapsed(now, ts) < ttl { Some(v) } else { None },
            None => None,
        }
    }

    /// An empty cache.
    pub fn new() -> (c: CacheCell<T>)
        ensures
            c.entry is None,
    {
        CacheCell { entry: None }
    }

    /// The cached value when it was produced less than `ttl` ago.
    pub fn fresh(&self, now: u64, ttl: u64) -> (r: Option<&T>)
        ensures
            match self.spec_fresh(now, ttl) {
                Some(v) => r == Some(&v),
                None => r is None,
            },
    {
        match &self.entry {
            Some((v, ts)) => {
                let elapsed = if now >= *ts { now - *ts } else { 0 };
                if elapsed < ttl {
                    Some(v)
                } else {
                    None
                }
            },
            None => None,
        }
    }

    /// Returns the cached value when it is still fresh at `now`; otherwise runs `init` and, when
    /// it succeeds, caches its value stamped `now`. A failure of `init` is returned and leaves
    /// the cache as it was.
    pub fn get_or_try_init<E, F: FnOnce() -> Result<T, E>>(&mut self, now: u64, ttl: u64, init: F) -> (r: Result<&T, E>)
        requires
            old(self).spec_fresh(now, ttl) is None ==> init.requires(()),
        ensures
            old(self).spec_fresh(now, ttl) matches Some(v) ==> *final(self) == *old(self) && r == Ok::<&T, E>(&v),
            old(self).spec_fresh(now, ttl) is None ==> exists|out: Result<T, E>| #[trigger] init.ensures((), out) && match out {
                Ok(v) => final(self).entry == Some((v, now)) && r == Ok::<&T, E>(&v),
                Err(e) => *final(self) == *old(self) && r == Err::<&T, E>(e),
            },
    {
        if self.fresh(now, ttl).is_some() {
            let stored = self.entry.as_ref().unwrap();
            return Ok(&stored.0);
        }
        let out = init();
        self.refresh(out, now)
    }

    /// Records the outcome of a refresh started because no fresh value was cached: a new value
    /// replaces the entry, stamped `now`; a failure leaves the entry as it was.
    pub fn refresh<E>(&mut self, result: Result<T, E>, now: u64) -> (r: Result<&T, E>)
        ensures
            *final(self) == spec_refreshed(*old(self), result, now),
            result matches Ok(v) ==> final(self).entry == Some((v, now)) && r == Ok::<&T, E>(&v),
            result matches Err(e) ==> *final(self) == *old(self) && r == Err::<&T, E>(e),
    {
        match result {
            Ok(v) => {
                self.entry = Some((v, now));
                let stored = self.entry.as_ref().unwrap();
                Ok(&stored.0)
            },
            Err(e) => Err(e),
        }
    }
}

/// A value stored at `ts` is returned by every lookup less than `ttl` after `ts`, and by none
/// from then on.
pub proof fn law_fresh_within_ttl<T>(c: CacheCell<T>, v: T, ts: u64, now: u64, ttl: u64)
    requires
        c.entry == Some((v, ts)),
    ensures
        spec_elapsed(now, ts) < ttl ==> c.spec_fresh(now, ttl) == Some(v),
        spec_elapsed(now, ts) >= ttl ==> c.spec_fresh(now, ttl) is None,
{
}

} // verus!
