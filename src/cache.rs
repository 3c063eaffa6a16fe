//! A time-to-live cache of one externally fetched value, as a state machine: the
//! caller reads and writes the durable copy and performs the fetch; this decides.

use vstd::prelude::*;

verus! {

/// A value and the time, in seconds, at which it was fetched.
pub struct CacheEntry<T> {
    pub value: T,
    pub fetched_at: u64,
}

/// How long a value stays fresh, and the delays before the next poll after a good
/// and after a failed refresh, all in seconds.
#[derive(Clone, Copy)]
pub struct CachePolicy {
    pub ttl: u64,
    pub update_interval: u64,
    pub retry_timeout: u64,
}

/// Whether the cached value can be served as it is.
pub enum Freshness {
    Fresh,
    Stale,
}

/// What to do on a poll.
pub enum CacheStep {
    ServeCached,
    Fetch,
}

/// What a finished refresh asks of the caller.
pub struct RefreshReport {
    /// Write the new entry to durable storage.
    pub persist: bool,
    /// Seconds until the next poll.
    pub next_poll: u64,
}

/// An entry fetched at `fetched_at` is fresh at `now` when it is younger than
/// `ttl`; a missing or unreadable entry (`None`) is stale. A time stamp later than
/// `now` counts as age zero.
pub open spec fn is_fresh(fetched_at: Option<u64>, now: u64, ttl: u64) -> bool {
    match fetched_at {
        None => false,
        Some(t) => if t >= now {
            0 < ttl
        } else {
            now - t < ttl
        },
    }
}

pub fn freshness(fetched_at: Option<u64>, now: u64, ttl: u64) -> (r: Freshness)
    ensures
        r is Fresh <==> is_fresh(fetched_at, now, ttl),
{
    match fetched_at {
        None => Freshness::Stale,
        Some(t) => {
            let age = if t >= now {
                0
            } else {
                now - t
            };
            if age < ttl {
                Freshness::Fresh
            } else {
                Freshness::Stale
            }
        },
    }
}

/// The cached value, the error of the last failed refresh, and the policy.
pub struct TtlCache<T> {
    pub entry: Option<CacheEntry<T>>,
    pub error: Option<String>,
    pub policy: CachePolicy,
}

pub open spec fn fetched_at_of<T>(entry: Option<CacheEntry<T>>) -> Option<u64> {
    match entry {
        None => None,
        Some(e) => Some(e.fetched_at),
    }
}

impl<T> TtlCache<T> {
    /// A cache holding what was read from durable storage, if anything could be read.
    pub fn new(policy: CachePolicy, loaded: Option<CacheEntry<T>>) -> (r: Self)
        ensures
            r.entry == loaded,
            r.error is None,
            r.policy == policy,
    {
        TtlCache { entry: loaded, error: None, policy }
    }

    /// What a poll at `now` does: serve a fresh entry, or fetch.
    pub fn step(&self, now: u64) -> (r: CacheStep)
        ensures
            r is ServeCached <==> is_fresh(fetched_at_of(self.entry), now, self.policy.ttl),
    {
        let fetched_at = match &self.entry {
            None => None,
            Some(e) => Some(e.fetched_at),
        };
        match freshness(fetched_at, now, self.policy.ttl) {
            Freshness::Fresh => CacheStep::ServeCached,
            Freshness::Stale => CacheStep::Fetch,
        }
    }

    /// A poll served the cached entry: no error is shown, and the next poll comes
    /// after the update interval.
    pub fn serve_cached(&mut self) -> (next_poll: u64)
        ensures
            final(self).entry == old(self).entry,
            final(self).error is None,
            final(self).policy == old(self).policy,
            next_poll == old(self).policy.update_interval,
    {
        self.error = None;
        self.policy.update_interval
    }

    /// Takes the outcome of a fetch made at `now`. A value becomes the entry, is to be
    /// persisted, and the next poll comes after the update interval. A failure leaves
    /// the entry and the durable copy as they were, keeps its description to show,
    /// and the next poll comes after the retry timeout.
    pub fn complete_refresh(&mut self, outcome: Result<T, String>, now: u64) -> (r: RefreshReport)
        ensures
            final(self).policy == old(self).policy,
            r.persist == outcome is Ok,
            outcome matches Ok(v) ==> final(self).entry == Some(
                (CacheEntry { value: v, fetched_at: now }),
            ) && final(self).error is None && r.next_poll == old(self).policy.update_interval,
            outcome matches Err(e) ==> final(self).entry == old(self).entry && final(self).error
                == Some(e) && r.next_poll == old(self).policy.retry_timeout,
    {
        match outcome {
            Ok(value) => {
                self.entry = Some(CacheEntry { value, fetched_at: now });
                self.error = None;
                RefreshReport { persist: true, next_poll: self.policy.update_interval }
            },
            Err(description) => {
                self.error = Some(description);
                RefreshReport { persist: false, next_poll: self.policy.retry_timeout }
            },
        }
    }
}

/// One second past the time to live an entry is stale; one second short of it, fresh.
pub proof fn lemma_ttl_boundary(now: u64, ttl: u64)
    requires
        ttl >= 1,
        now >= ttl + 1,
    ensures
        !is_fresh(Some((now - ttl - 1) as u64), now, ttl),
        is_fresh(Some((now - ttl + 1) as u64), now, ttl),
{
}

} // verus!
