use vstd::prelude::*;
use crate::clock::local_offset_at;

verus! {

/// An event as the calendar provider reports it, reduced to the fields that
/// this library reads.
///
/// `start_time` and `end_time` hold the boundary's instant when the provider
/// gave one with a time of day; they are `None` for a missing or date-only
/// boundary.
#[derive(Clone, Debug, PartialEq, Eq)]
pub struct RawEvent {
    pub summary: String,
    pub location: String,
    pub start_time: Option<i64>,
    pub end_time: Option<i64>,
}

/// A timed event, as it is cached and reported.
#[derive(Clone, Debug, PartialEq, Eq)]
pub struct Event {
    pub title: String,
    pub location: Option<String>,
    pub start_time: i64,
    pub end_time: i64,
}

/// An all-day event: neither boundary carries a time of day.
pub open spec fn all_day(raw: RawEvent) -> bool {
    raw.start_time is None && raw.end_time is None
}

/// The event that a provider event becomes: present only when both
/// boundaries carry a time and the event does not end before it starts.
pub open spec fn event_of(raw: RawEvent) -> Option<Event> {
    match (raw.start_time, raw.end_time) {
        (Some(s), Some(e)) => if s <= e {
            Some(
                Event {
                    title: raw.summary,
                    location: if raw.location@.len() == 0 {
                        None
                    } else {
                        Some(raw.location)
                    },
                    start_time: s,
                    end_time: e,
                },
            )
        } else {
            None
        },
        _ => None,
    }
}

/// The decimal digit `d`, for `0 <= d < 10`.
pub open spec fn digit(d: int) -> char {
    if d == 0 {
        '0'
    } else if d == 1 {
        '1'
    } else if d == 2 {
        '2'
    } else if d == 3 {
        '3'
    } else if d == 4 {
        '4'
    } else if d == 5 {
        '5'
    } else if d == 6 {
        '6'
    } else if d == 7 {
        '7'
    } else if d == 8 {
        '8'
    } else {
        '9'
    }
}

/// `n`, for `0 <= n < 100`, in two digits.
pub open spec fn two_digits(n: int) -> Seq<char> {
    seq![digit(n / 10), digit(n % 10)]
}

/// The wall-clock time of a local instant (seconds since the epoch, shifted
/// by the UTC offset) on a 12-hour clock: `HH:MM AM` or `HH:MM PM`.
pub open spec fn clock_12h(local: int) -> Seq<char> {
    let of_day = local % 86400;
    let hour = of_day / 3600;
    let minute = (of_day % 3600) / 60;
    let hour12 = if hour % 12 == 0 {
        12
    } else {
        hour % 12
    };
    two_digits(hour12) + seq![':'] + two_digits(minute) + seq![' '] + if hour < 12 {
        seq!['A', 'M']
    } else {
        seq!['P', 'M']
    }
}

/// The one-line report of an event, for a local offset of `offset` seconds:
/// `title`, then ` [location]` where there is one, then `: ` and the start
/// time on a 12-hour clock.
pub open spec fn status_line(e: Event, offset: int) -> Seq<char> {
    e.title@ + match e.location {
        Some(l) => seq![' ', '['] + l@ + seq![']'],
        None => Seq::empty(),
    } + seq![':', ' '] + clock_12h(e.start_time + offset)
}

fn digit_str(d: u64) -> (r: &'static str)
    requires
        d < 10,
    ensures
        r@ == seq![digit(d as int)],
{
    if d == 0 {
        proof { reveal_strlit("0"); }
        "0"
    } else if d == 1 {
        proof { reveal_strlit("1"); }
        "1"
    } else if d == 2 {
        proof { reveal_strlit("2"); }
        "2"
    } else if d == 3 {
        proof { reveal_strlit("3"); }
        "3"
    } else if d == 4 {
        proof { reveal_strlit("4"); }
        "4"
    } else if d == 5 {
        proof { reveal_strlit("5"); }
        "5"
    } else if d == 6 {
        proof { reveal_strlit("6"); }
        "6"
    } else if d == 7 {
        proof { reveal_strlit("7"); }
        "7"
    } else if d == 8 {
        proof { reveal_strlit("8"); }
        "8"
    } else {
        proof { reveal_strlit("9"); }
        "9"
    }
}

fn append_two_digits(s: &mut String, n: u64)
    requires
        n < 100,
    ensures
        final(s)@ == old(s)@ + two_digits(n as int),
{
    s.append(digit_str(n / 10));
    s.append(digit_str(n % 10));
}

/// The time of day of a local instant on a 12-hour clock (`HH:MM AM`).
pub fn format_clock_12h(local: i128) -> (r: String)
    ensures
        r@ == clock_12h(local as int),
{
    let rem = local % 86400;
    let of_day: i128 = if rem < 0 {
        rem + 86400
    } else {
        rem
    };
    assert(of_day == local as int % 86400);
    let of_day = of_day as u64;
    let hour = of_day / 3600;
    let minute = (of_day % 3600) / 60;
    let hour12 = if hour % 12 == 0 {
        12
    } else {
        hour % 12
    };
    let mut s = String::new();
    append_two_digits(&mut s, hour12);
    proof { reveal_strlit(":"); reveal_strlit(" AM"); reveal_strlit(" PM"); }
    s.append(":");
    append_two_digits(&mut s, minute);
    if hour < 12 {
        s.append(" AM");
    } else {
        s.append(" PM");
    }
    assert(s@ =~= clock_12h(local as int));
    s
}

/// The events that a provider list yields, in the provider's order.
pub open spec fn normalized(raws: Seq<RawEvent>) -> Seq<Event> {
    raws.filter_map(|r: RawEvent| event_of(r))
}

impl Event {
    /// A well-formed event does not end before it starts.
    pub open spec fn wf(&self) -> bool {
        self.start_time <= self.end_time
    }

    /// A field-by-field copy.
    pub fn duplicate(&self) -> (r: Event)
        ensures
            r == *self,
    {
        let location = match &self.location {
            Some(l) => Some(l.clone()),
            None => None,
        };
        Event {
            title: self.title.clone(),
            location,
            start_time: self.start_time,
            end_time: self.end_time,
        }
    }

    /// The report line of the event, with its start on the local clock of
    /// an offset of `offset` seconds from UTC.
    pub fn format_status_line_at(&self, offset: i32) -> (r: String)
        ensures
            r@ == status_line(*self, offset as int),
    {
        let mut s = self.title.clone();
        proof { reveal_strlit(" ["); reveal_strlit("]"); reveal_strlit(": "); }
        match &self.location {
            Some(l) => {
                s.append(" [");
                s.append(l.as_str());
                s.append("]");
            },
            None => {},
        }
        s.append(": ");
        let clock = format_clock_12h(self.start_time as i128 + offset as i128);
        s.append(clock.as_str());
        assert(s@ =~= status_line(*self, offset as int));
        s
    }

    /// The report line of the event on this machine's local clock (UTC where
    /// the offset cannot be had).
    pub fn format_status_line(&self) -> (r: String)
        ensures
            exists|offset: int| -86400 < offset < 86400 && r@ == status_line(*self, offset),
    {
        let offset = match local_offset_at(self.start_time) {
            Some(o) => o,
            None => 0,
        };
        self.format_status_line_at(offset)
    }

    /// Turns a provider event into an event, or `None` where it has no time
    /// on one of its boundaries (all-day events among them) or ends before it
    /// starts. An empty location becomes `None`.
    pub fn from_raw(raw: &RawEvent) -> (r: Option<Event>)
        ensures
            r == event_of(*raw),
            r matches Some(e) ==> e.wf(),
    {
        match (raw.start_time, raw.end_time) {
            (Some(s), Some(e)) => {
                if s <= e {
                    let location = if raw.location.as_str().unicode_len() == 0 {
                        None
                    } else {
                        Some(raw.location.clone())
                    };
                    Some(
                        Event {
                            title: raw.summary.clone(),
                            location,
                            start_time: s,
                            end_time: e,
                        },
                    )
                } else {
                    None
                }
            },
            _ => None,
        }
    }
}

/// Whether a provider event is an all-day event.
pub fn is_all_day(event: &RawEvent) -> (r: bool)
    ensures
        r == all_day(*event),
{
    event.start_time.is_none() && event.end_time.is_none()
}

/// The events of a provider list that have a time on both boundaries, in the
/// provider's order; all-day events are left out.
pub fn normalize_events(raws: &Vec<RawEvent>) -> (r: Vec<Event>)
    ensures
        r@ == normalized(raws@),
        forall|k: int| 0 <= k < r@.len() ==> #[trigger] r@[k].wf(),
{
    let mut out: Vec<Event> = Vec::new();
    let n = raws.len();
    for i in 0..n
        invariant
            n == raws@.len(),
            out@ == raws@.take(i as int).filter_map(|r: RawEvent| event_of(r)),
            forall|k: int| 0 <= k < out@.len() ==> #[trigger] out@[k].wf(),
    {
        proof {
            raws@.lemma_filter_map_take_succ(|r: RawEvent| event_of(r), i as int);
        }
        match Event::from_raw(&raws[i]) {
            Some(e) => out.push(e),
            None => {},
        }
    }
    assert(raws@.take(n as int) =~= raws@);
    out
}

} // verus!
