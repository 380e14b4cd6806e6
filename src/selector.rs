use vstd::prelude::*;
use crate::event::{all_day, event_of, normalized, Event, RawEvent};

verus! {

/// The event starts strictly after `now`.
pub open spec fn upcoming(e: Event, now: i64) -> bool {
    e.start_time > now
}

/// The event's interval holds `now`, both ends included.
pub open spec fn running(e: Event, now: i64) -> bool {
    e.start_time <= now && now <= e.end_time
}

/// The event starts less than `horizon` seconds after `now`, or there is no
/// horizon.
pub open spec fn within_horizon(e: Event, now: i64, horizon: Option<i64>) -> bool {
    match horizon {
        None => true,
        Some(h) => e.start_time - now < h,
    }
}

/// `i` is the first position, in list order, of an upcoming event.
pub open spec fn is_first_upcoming(s: Seq<Event>, now: i64, i: int) -> bool {
    &&& 0 <= i < s.len()
    &&& upcoming(s[i], now)
    &&& forall|j: int| 0 <= j < i ==> !upcoming(#[trigger] s[j], now)
}

/// `i` holds a running event with the latest start; among running events
/// with that start it is the first in list order.
pub open spec fn is_latest_running(s: Seq<Event>, now: i64, i: int) -> bool {
    &&& 0 <= i < s.len()
    &&& running(s[i], now)
    &&& forall|j: int|
        0 <= j < s.len() && running(#[trigger] s[j], now) ==> s[j].start_time <= s[i].start_time
    &&& forall|j: int|
        0 <= j < i && running(#[trigger] s[j], now) ==> s[j].start_time < s[i].start_time
}

/// The position of the first upcoming event, if any.
pub open spec fn first_upcoming(s: Seq<Event>, now: i64) -> Option<int> {
    if exists|i: int| is_first_upcoming(s, now, i) {
        Some(choose|i: int| is_first_upcoming(s, now, i))
    } else {
        None
    }
}

/// The position of the first upcoming event, if it lies within the horizon.
pub open spec fn first_upcoming_within(s: Seq<Event>, now: i64, horizon: Option<i64>) -> Option<
    int,
> {
    match first_upcoming(s, now) {
        Some(i) => if within_horizon(s[i], now, horizon) {
            Some(i)
        } else {
            None
        },
        None => None,
    }
}

/// The position of the latest-starting running event, if any.
pub open spec fn latest_running(s: Seq<Event>, now: i64) -> Option<int> {
    if exists|i: int| is_latest_running(s, now, i) {
        Some(choose|i: int| is_latest_running(s, now, i))
    } else {
        None
    }
}

/// The position of the event to report: the first upcoming one within the
/// horizon, else the latest-starting running one.
pub open spec fn next_event_index(s: Seq<Event>, now: i64, horizon: Option<i64>) -> Option<int> {
    match first_upcoming_within(s, now, horizon) {
        Some(i) => Some(i),
        None => latest_running(s, now),
    }
}

/// The event to report, if any.
pub open spec fn next_event(s: Seq<Event>, now: i64, horizon: Option<i64>) -> Option<Event> {
    match next_event_index(s, now, horizon) {
        Some(i) => Some(s[i]),
        None => None,
    }
}

proof fn lemma_first_upcoming_unique(s: Seq<Event>, now: i64, i: int, k: int)
    requires
        is_first_upcoming(s, now, i),
        is_first_upcoming(s, now, k),
    ensures
        i == k,
{
    if i < k {
        assert(!upcoming(s[i], now));
    } else if k < i {
        assert(!upcoming(s[k], now));
    }
}

proof fn lemma_latest_running_unique(s: Seq<Event>, now: i64, i: int, k: int)
    requires
        is_latest_running(s, now, i),
        is_latest_running(s, now, k),
    ensures
        i == k,
{
    if i < k {
        assert(running(s[i], now));
    } else if k < i {
        assert(running(s[k], now));
    }
}

/// Whether the event starts less than `horizon` seconds after `now`; always
/// so without a horizon.
pub fn is_within_horizon(event: &Event, now: i64, horizon: Option<i64>) -> (r: bool)
    ensures
        r == within_horizon(*event, now, horizon),
{
    match horizon {
        None => true,
        Some(h) => (event.start_time as i128) - (now as i128) < h as i128,
    }
}

/// The position of the first event, in list order, that starts after `now`.
/// The list is not sorted here: callers hand it over in start order.
pub fn earliest_upcoming_event(events: &[Event], now: i64) -> (r: Option<usize>)
    ensures
        match r {
            Some(i) => is_first_upcoming(events@, now, i as int),
            None => forall|j: int| 0 <= j < events@.len() ==> !upcoming(#[trigger] events@[j], now),
        },
        r matches Some(i) ==> first_upcoming(events@, now) == Some(i as int),
        r is None ==> first_upcoming(events@, now) is None,
{
    let n = events.len();
    for i in 0..n
        invariant
            n == events@.len(),
            forall|j: int| 0 <= j < i ==> !upcoming(#[trigger] events@[j], now),
    {
        if events[i].start_time > now {
            proof {
                assert(is_first_upcoming(events@, now, i as int));
                let c = choose|k: int| is_first_upcoming(events@, now, k);
                lemma_first_upcoming_unique(events@, now, c, i as int);
            }
            return Some(i);
        }
    }
    None
}

/// The first upcoming event's position, kept only where the event starts less
/// than `horizon` seconds after `now`; with no horizon, the first upcoming
/// event's position.
pub fn earliest_upcoming_event_within(events: &[Event], now: i64, horizon: Option<i64>) -> (r:
    Option<usize>)
    ensures
        match r {
            Some(i) => first_upcoming_within(events@, now, horizon) == Some(i as int),
            None => first_upcoming_within(events@, now, horizon) is None,
        },
{
    match earliest_upcoming_event(events, now) {
        None => None,
        Some(i) => match horizon {
            None => Some(i),
            Some(_) => {
                if is_within_horizon(&events[i], now, horizon) {
                    Some(i)
                } else {
                    None
                }
            },
        },
    }
}

/// The position of the running event (start <= now <= end) with the latest
/// start; on equal starts the first in list order is kept.
pub fn latest_running_event(events: &[Event], now: i64) -> (r: Option<usize>)
    ensures
        match r {
            Some(i) => is_latest_running(events@, now, i as int),
            None => forall|j: int| 0 <= j < events@.len() ==> !running(#[trigger] events@[j], now),
        },
        match r {
            Some(i) => latest_running(events@, now) == Some(i as int),
            None => latest_running(events@, now) is None,
        },
{
    let n = events.len();
    let mut best: Option<usize> = None;
    for i in 0..n
        invariant
            n == events@.len(),
            match best {
                Some(b) => {
                    &&& b < i
                    &&& running(events@[b as int], now)
                    &&& forall|j: int|
                        0 <= j < i && running(#[trigger] events@[j], now) ==> events@[j].start_time
                            <= events@[b as int].start_time
                    &&& forall|j: int|
                        0 <= j < b && running(#[trigger] events@[j], now) ==> events@[j].start_time
                            < events@[b as int].start_time
                },
                None => forall|j: int| 0 <= j < i ==> !running(#[trigger] events@[j], now),
            },
    {
        let e = &events[i];
        if e.start_time <= now && now <= e.end_time {
            match best {
                Some(b) => {
                    if e.start_time > events[b].start_time {
                        best = Some(i);
                    }
                },
                None => {
                    best = Some(i);
                },
            }
        }
    }
    proof {
        match best {
            Some(b) => {
                assert(is_latest_running(events@, now, b as int));
                let c = choose|k: int| is_latest_running(events@, now, k);
                lemma_latest_running_unique(events@, now, c, b as int);
            },
            None => {},
        }
    }
    best
}

/// The event to report at `now`: the first upcoming event, where it starts
/// less than `horizon` seconds away (or there is no horizon); otherwise the
/// running event with the latest start; otherwise none.
pub fn get_next_event(events: &[Event], now: i64, horizon: Option<i64>) -> (r: Option<Event>)
    ensures
        r == next_event(events@, now, horizon),
{
    let i = match earliest_upcoming_event_within(events, now, horizon) {
        Some(i) => Some(i),
        None => latest_running_event(events, now),
    };
    match i {
        Some(i) => Some(events[i].duplicate()),
        None => None,
    }
}

proof fn lemma_some_first_upcoming(s: Seq<Event>, now: i64, j: int)
    requires
        0 <= j < s.len(),
        upcoming(s[j], now),
    ensures
        exists|i: int| is_first_upcoming(s, now, i),
    decreases j,
{
    if forall|m: int| 0 <= m < j ==> !upcoming(#[trigger] s[m], now) {
        assert(is_first_upcoming(s, now, j));
    } else {
        let k = choose|k: int| 0 <= k < j && upcoming(#[trigger] s[k], now);
        lemma_some_first_upcoming(s, now, k);
    }
}

/// In a list sorted by start time, the first upcoming event is the one that
/// starts soonest after `now`; with no upcoming event there is none.
pub proof fn lemma_first_upcoming_is_soonest(s: Seq<Event>, now: i64)
    requires
        forall|i: int, j: int| 0 <= i <= j < s.len() ==> s[i].start_time <= s[j].start_time,
    ensures
        match first_upcoming(s, now) {
            Some(i) => {
                &&& 0 <= i < s.len()
                &&& upcoming(s[i], now)
                &&& forall|j: int| 0 <= j < s.len() && upcoming(#[trigger] s[j], now) ==> s[i].start_time <= s[j].start_time
            },
            None => forall|j: int| 0 <= j < s.len() ==> !upcoming(#[trigger] s[j], now),
        },
{
    if exists|i: int| is_first_upcoming(s, now, i) {
        let i = choose|i: int| is_first_upcoming(s, now, i);
        assert forall|j: int| 0 <= j < s.len() && upcoming(#[trigger] s[j], now) implies s[i].start_time <= s[j].start_time by {
            if j < i {
                assert(!upcoming(s[j], now));
            }
        }
    } else {
        assert forall|j: int| 0 <= j < s.len() implies !upcoming(#[trigger] s[j], now) by {
            if upcoming(s[j], now) {
                lemma_some_first_upcoming(s, now, j);
            }
        }
    }
}

/// The horizon is strict: the first upcoming event is reported when it starts
/// `horizon - 1` seconds after `now`, and not when it starts exactly `horizon`
/// seconds after.
pub proof fn lemma_horizon_boundary(s: Seq<Event>, now: i64, horizon: i64)
    requires
        first_upcoming(s, now) is Some,
    ensures
        s[first_upcoming(s, now)->Some_0].start_time == now + horizon ==> first_upcoming_within(s, now, Some(horizon)) is None,
        s[first_upcoming(s, now)->Some_0].start_time == now + horizon - 1 ==> first_upcoming_within(s, now, Some(horizon)) == first_upcoming(s, now),
{
}

/// No reported event comes from an all-day provider event: whatever is
/// picked among normalized provider events was built from one with a time on
/// both boundaries, and is well formed.
pub proof fn lemma_next_event_never_all_day(raws: Seq<RawEvent>, now: i64, horizon: Option<i64>)
    ensures
        next_event(normalized(raws), now, horizon) matches Some(e) ==> {
            &&& e.wf()
            &&& exists|r: RawEvent| #[trigger] raws.contains(r) && !all_day(r) && event_of(r) == Some(e)
        },
{
    let s = normalized(raws);
    match next_event_index(s, now, horizon) {
        Some(i) => {
            if first_upcoming_within(s, now, horizon) is Some {
                assert(is_first_upcoming(s, now, i));
            } else {
                assert(is_latest_running(s, now, i));
            }
            assert(s.contains(s[i]));
            raws.lemma_filter_map_contains(|r: RawEvent| event_of(r), s[i]);
        },
        None => {},
    }
}

} // verus!
