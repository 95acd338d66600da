//! The credential cache: whether the elevated session is currently trusted,
//! and since when. Pure state; the caller supplies the current time.
use vstd::prelude::*;

verus! {

/// Number of seconds in a minute; cache lifetimes are configured in minutes.
pub const SECONDS_PER_MINUTE: u64 = 60;

/// Seconds from `start` to `now`, read as zero when `now` lies before `start`
/// (a monotonic clock never goes back; this keeps the function total).
pub open spec fn elapsed(start: u64, now: u64) -> nat {
    if now >= start {
        (now - start) as nat
    } else {
        0
    }
}

/// Abstract state of an [`ElevationCache`].
pub struct CacheView {
    /// Last known validity of the elevated session.
    pub authenticated: bool,
    /// Time (in seconds) at which validity was last established.
    pub last_auth: Option<u64>,
    /// How long a confirmation stays trustworthy, in seconds.
    pub cache_duration: u64,
}

impl CacheView {
    /// The cache trusts the session at time `now`: it is marked authenticated,
    /// it holds a confirmation time, and less than the lifetime has elapsed since.
    pub open spec fn valid_at(self, now: u64) -> bool {
        &&& self.authenticated
        &&& self.last_auth is Some
        &&& elapsed(self.last_auth->0, now) < self.cache_duration
    }

    /// The cache holds a confirmation at all (whatever the time).
    pub open spec fn holds_confirmation(self) -> bool {
        self.authenticated && self.last_auth is Some
    }

    /// State after a confirmation at `now`.
    pub open spec fn confirmed(self, now: u64) -> CacheView {
        CacheView { authenticated: true, last_auth: Some(now), cache_duration: self.cache_duration }
    }

    /// State after an invalidation.
    pub open spec fn invalidated(self) -> CacheView {
        CacheView { authenticated: false, last_auth: None, cache_duration: self.cache_duration }
    }

    /// State after the background renewal reported the session lost: the flag
    /// drops, the confirmation time stays as it was.
    pub open spec fn session_lost(self) -> CacheView {
        CacheView { authenticated: false, ..self }
    }
}

/// Cache of the authentication state of the elevated session.
#[derive(Debug)]
pub struct ElevationCache {
    authenticated: bool,
    cache_duration: u64,
    last_auth: Option<u64>,
}

impl View for ElevationCache {
    type V = CacheView;

    closed spec fn view(&self) -> CacheView {
        CacheView {
            authenticated: self.authenticated,
            last_auth: self.last_auth,
            cache_duration: self.cache_duration,
        }
    }
}

impl ElevationCache {
    /// Creates an empty (invalid) cache whose confirmations last
    /// `cache_duration_minutes` minutes.
    pub fn new(cache_duration_minutes: u64) -> (r: Self)
        requires
            cache_duration_minutes * SECONDS_PER_MINUTE <= u64::MAX,
        ensures
            r@ == (CacheView {
                authenticated: false,
                last_auth: None,
                cache_duration: (cache_duration_minutes * SECONDS_PER_MINUTE) as u64,
            }),
    {
        ElevationCache {
            authenticated: false,
            cache_duration: cache_duration_minutes * SECONDS_PER_MINUTE,
            last_auth: None,
        }
    }

    /// Whether the session is trusted at time `now` (seconds).
    pub fn is_authenticated(&self, now: u64) -> (r: bool)
        ensures
            r == self@.valid_at(now),
    {
        match self.last_auth {
            Some(last) => {
                let elapsed: u64 = if now >= last {
                    now - last
                } else {
                    0
                };
                self.authenticated && elapsed < self.cache_duration
            },
            None => false,
        }
    }

    /// Lifetime of a confirmation, in seconds.
    pub fn cache_duration_secs(&self) -> (r: u64)
        ensures
            r == self@.cache_duration,
    {
        self.cache_duration
    }

    /// Whether the authenticated flag is set (the keeper's stop signal).
    pub fn flag_set(&self) -> (r: bool)
        ensures
            r == self@.authenticated,
    {
        self.authenticated
    }

    /// Records that the elevation mechanism verified access at time `now`.
    pub fn confirm(&mut self, now: u64)
        ensures
            final(self)@ == old(self)@.confirmed(now),
    {
        self.authenticated = true;
        self.last_auth = Some(now);
    }

    /// Forgets the session. Idempotent.
    pub fn invalidate(&mut self)
        ensures
            final(self)@ == old(self)@.invalidated(),
    {
        self.authenticated = false;
        self.last_auth = None;
    }

    /// Drops the authenticated flag only, as the background renewal does when
    /// the underlying session turned out to be gone.
    pub fn mark_session_lost(&mut self)
        ensures
            final(self)@ == old(self)@.session_lost(),
    {
        self.authenticated = false;
    }
}

} // verus!
