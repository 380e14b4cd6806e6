use vstd::prelude::*;
use crate::clock::now_seconds;
use crate::event::Event;

verus! {

/// The cached events and the instant at which they were fetched.
///
/// The events keep the provider's order; the cache is always replaced whole.
#[derive(Clone, Debug, PartialEq, Eq)]
pub struct EventsCache {
    pub events: Vec<Event>,
    pub last_updated: i64,
}

/// Data fetched at `last_updated` is stale at `now` when more than
/// `cache_duration` seconds have passed.
pub open spec fn stale(last_updated: i64, now: i64, cache_duration: i64) -> bool {
    now - last_updated > cache_duration
}

impl EventsCache {
    /// Whether more than `cache_duration` seconds have passed between
    /// `last_updated` and `now`.
    pub fn is_stale(&self, now: i64, cache_duration: i64) -> (r: bool)
        ensures
            r == stale(self.last_updated, now, cache_duration),
    {
        (now as i128) - (self.last_updated as i128) > cache_duration as i128
    }

    /// A cache of `events`, stamped with the current time.
    pub fn from_vec(events: Vec<Event>) -> (r: EventsCache)
        ensures
            r.events == events,
    {
        EventsCache { events, last_updated: now_seconds() }
    }
}

/// Whether the events must be fetched again rather than taken from `cached`:
/// when the cache is bypassed, missing or unreadable (`None`), or stale at
/// `now`.
pub fn needs_refresh(nocache: bool, cached: &Option<EventsCache>, now: i64, cache_duration: i64) -> (r:
    bool)
    ensures
        r == (nocache || match cached {
            None => true,
            Some(c) => stale(c.last_updated, now, cache_duration),
        }),
{
    if nocache {
        return true;
    }
    match cached {
        None => true,
        Some(c) => c.is_stale(now, cache_duration),
    }
}

/// Staleness is strict: data is still fresh exactly `cache_duration` seconds
/// after it was fetched, and stale one second later.
pub proof fn lemma_stale_boundary(last_updated: i64, cache_duration: i64)
    requires
        i64::MIN <= last_updated + cache_duration,
        last_updated + cache_duration + 1 <= i64::MAX,
    ensures
        !stale(last_updated, (last_updated + cache_duration) as i64, cache_duration),
        stale(last_updated, (last_updated + cache_duration + 1) as i64, cache_duration),
{
}

} // verus!
