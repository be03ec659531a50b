//! When a cached checkout was created and last refreshed, and whether it is
//! still fresh enough to serve.
use vstd::prelude::*;

verus! {

/// `std::time::SystemTimeError`, carried through as an opaque value.
#[verifier::external_type_specification]
#[verifier::external_body]
pub struct ExSystemTimeError(std::time::SystemTimeError);

/// Calls `SystemTime::elapsed` on `UNIX_EPOCH`: the time by the system clock
/// since the Unix epoch, or an error when the clock stands before the epoch.
/// The value is read from the clock, so nothing is stated of it.
#[verifier::external_body]
fn elapsed_since_epoch() -> std::result::Result<core::time::Duration, std::time::SystemTimeError> {
    std::time::UNIX_EPOCH.elapsed()
}

/// `Duration::as_secs`, the whole seconds of a duration. A `Duration` is
/// opaque here, so nothing is stated of the result.
pub assume_specification[ core::time::Duration::as_secs ](d: &core::time::Duration) -> u64;

/// Seconds a cached checkout stays fresh after it was refreshed.
pub const CACHE_TTL_SECS: u64 = 3600;

/// The whole seconds since the Unix epoch by the system clock, or `None`
/// when the clock stands before the epoch (a state the service does not run
/// in: its callers stop there). The value is read from the clock, so no
/// clause states it.
pub fn current_time_seconds() -> Option<u64> {
    match elapsed_since_epoch() {
        Ok(elapsed) => Some(elapsed.as_secs()),
        Err(_) => None,
    }
}

/// `now - then` on `u64`, wrapping around as the machine's subtraction does
/// when `then` lies after `now`.
pub open spec fn wrapping_elapsed(then: u64, now: u64) -> int {
    if then <= now {
        now - then
    } else {
        now - then + 0x1_0000_0000_0000_0000
    }
}

/// Metadata kept beside a cached checkout.
#[derive(Debug, Clone, Copy, PartialEq, Eq, Structural)]
pub struct RepoMeta {
    /// When the checkout was first made, in seconds since the Unix epoch.
    pub created_at: u64,
    /// When the checkout was last refreshed, in seconds since the Unix epoch.
    pub updated_at: u64,
}

impl RepoMeta {
    /// Metadata of a checkout made at `now`.
    pub fn new_at(now: u64) -> (meta: RepoMeta)
        ensures
            meta.created_at == now,
            meta.updated_at == now,
    {
        RepoMeta { created_at: now, updated_at: now }
    }

    /// Records a refresh at `now`.
    pub fn update_at(&mut self, now: u64)
        ensures
            final(self).created_at == old(self).created_at,
            final(self).updated_at == now,
    {
        self.updated_at = now;
    }

    /// Records a refresh at the current time, and answers the clock reading
    /// it recorded; when the clock stands before the epoch, changes nothing
    /// and answers `None`.
    pub fn update(&mut self) -> (now: Option<u64>)
        ensures
            match now {
                Some(t) => final(self).created_at == old(self).created_at
                    && final(self).updated_at == t,
                None => *final(self) == *old(self),
            },
    {
        match current_time_seconds() {
            Some(t) => {
                self.update_at(t);
                Some(t)
            },
            None => None,
        }
    }

    /// Seconds from the last refresh to `now`.
    pub fn seconds_since_updated_at(&self, now: u64) -> (age: u64)
        ensures
            age == wrapping_elapsed(self.updated_at, now),
    {
        if self.updated_at <= now {
            now - self.updated_at
        } else {
            now + (u64::MAX - self.updated_at) + 1
        }
    }

    /// Seconds from the last refresh to the current time, or `None` when the
    /// clock stands before the epoch. The clock reading is not stated.
    pub fn seconds_since_updated(&self) -> Option<u64> {
        match current_time_seconds() {
            Some(t) => Some(self.seconds_since_updated_at(t)),
            None => None,
        }
    }

    /// Whether, at `now`, the checkout was refreshed less than an hour ago.
    pub fn is_fresh_at(&self, now: u64) -> (fresh: bool)
        ensures
            fresh == (wrapping_elapsed(self.updated_at, now) < CACHE_TTL_SECS),
    {
        self.seconds_since_updated_at(now) < CACHE_TTL_SECS
    }

    /// Whether the checkout was refreshed less than an hour before the
    /// current time, or `None` when the clock stands before the epoch. The
    /// clock reading is not stated.
    pub fn is_fresh(&self) -> Option<bool> {
        match current_time_seconds() {
            Some(t) => Some(self.is_fresh_at(t)),
            None => None,
        }
    }

    /// The metadata after a refresh at `now`: the existing metadata with
    /// `updated_at` moved to `now`, or, where there is none, metadata of a
    /// checkout made at `now`.
    pub fn refreshed_at(existing: Option<RepoMeta>, now: u64) -> (meta: RepoMeta)
        ensures
            meta.updated_at == now,
            meta.created_at == match existing {
                Some(m) => m.created_at,
                None => now,
            },
    {
        let mut meta = match existing {
            Some(m) => m,
            None => RepoMeta::new_at(now),
        };
        meta.update_at(now);
        meta
    }

    /// The metadata after a refresh at the current time, or `None` when the
    /// clock stands before the epoch.
    pub fn refreshed(existing: Option<RepoMeta>) -> (meta: Option<RepoMeta>)
        ensures
            meta matches Some(m) ==> m.created_at == match existing {
                Some(e) => e.created_at,
                None => m.updated_at,
            },
    {
        match current_time_seconds() {
            Some(t) => Some(RepoMeta::refreshed_at(existing, t)),
            None => None,
        }
    }
}

/// Whether a request may be served from the cached checkout at `now`: the
/// checkout exists, its metadata could be read, and it was refreshed less
/// than an hour ago. Otherwise the checkout is refreshed first.
pub fn use_cached_checkout(checkout_exists: bool, meta: &Option<RepoMeta>, now: u64) -> (cached: bool)
    ensures
        cached == (checkout_exists && match *meta {
            Some(m) => wrapping_elapsed(m.updated_at, now) < CACHE_TTL_SECS,
            None => false,
        }),
{
    if !checkout_exists {
        return false;
    }
    match meta {
        Some(m) => m.is_fresh_at(now),
        None => false,
    }
}

/// A checkout refreshed at `now` is fresh at `now`, and stays fresh exactly
/// while less than an hour has passed.
pub proof fn law_fresh_after_refresh(meta: RepoMeta, now: u64, later: u64)
    requires
        meta.updated_at == now,
        now <= later,
    ensures
        wrapping_elapsed(meta.updated_at, now) == 0,
        wrapping_elapsed(meta.updated_at, later) == later - now,
        (wrapping_elapsed(meta.updated_at, later) < CACHE_TTL_SECS) <==> (later - now < 3600),
{
}

} // verus!
