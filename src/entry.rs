//! One stored entry: a value and the instant after which it is expired.

use vstd::prelude::*;

verus! {

/// A value together with its optional expiry, in clock nanoseconds.
pub struct Entry<V> {
    pub value: V,
    pub expires_at: Option<u64>,
}

/// An entry with expiry `expires_at` is live at time `now`.
pub open spec fn is_live(expires_at: Option<u64>, now: u64) -> bool {
    match expires_at {
        None => true,
        Some(t) => now < t,
    }
}

/// The expiry given to an entry written at `now` with time-to-live `ttl`.
/// An expiry past the clock's range is never reached, so such an entry is
/// given none.
pub open spec fn expiry_for(now: u64, ttl: Option<u64>) -> Option<u64> {
    match ttl {
        Some(d) if now + d <= u64::MAX => Some((now + d) as u64),
        _ => None,
    }
}

/// Whether an entry with expiry `expires_at` is live at time `now`.
pub fn live_at(expires_at: Option<u64>, now: u64) -> (r: bool)
    ensures
        r == is_live(expires_at, now),
{
    match expires_at {
        None => true,
        Some(t) => now < t,
    }
}

/// The expiry of an entry written at `now` with time-to-live `ttl`.
pub fn expiry_after(now: u64, ttl: Option<u64>) -> (r: Option<u64>)
    ensures
        r == expiry_for(now, ttl),
{
    match ttl {
        None => None,
        Some(d) => now.checked_add(d),
    }
}

impl<V> Entry<V> {
    /// Whether this entry is live at time `now`.
    pub fn is_live_at(&self, now: u64) -> (r: bool)
        ensures
            r == is_live(self.expires_at, now),
    {
        live_at(self.expires_at, now)
    }
}

} // verus!
