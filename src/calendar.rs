use vstd::prelude::*;
use crate::config::SelectedCalendars;

verus! {

/// A calendar the user can read, as the provider lists it.
#[derive(Clone, Debug, PartialEq, Eq)]
pub struct CalendarEntry {
    pub id: String,
    pub summary: String,
    pub description: String,
}

impl CalendarEntry {
    /// A field-by-field copy.
    pub fn duplicate(&self) -> (r: CalendarEntry)
        ensures
            r == *self,
    {
        CalendarEntry {
            id: self.id.clone(),
            summary: self.summary.clone(),
            description: self.description.clone(),
        }
    }
}

/// Some entry of `list` reads `id`.
pub open spec fn listed(list: Seq<String>, id: Seq<char>) -> bool {
    exists|k: int| 0 <= k < list.len() && (#[trigger] list[k])@ == id
}

/// Whether the policy keeps the calendar with identifier `id`.
pub open spec fn selects(selected: SelectedCalendars, id: Seq<char>) -> bool {
    match selected {
        SelectedCalendars::All => true,
        SelectedCalendars::Whitelist(w) => listed(w@, id),
        SelectedCalendars::Blacklist(b) => !listed(b@, id),
    }
}

/// The calendars of `entries` that the policy keeps, in their order.
pub open spec fn selected_calendars(
    entries: Seq<CalendarEntry>,
    selected: SelectedCalendars,
) -> Seq<CalendarEntry> {
    entries.filter(|c: CalendarEntry| selects(selected, c.id@))
}

fn contains_id(list: &Vec<String>, id: &String) -> (r: bool)
    ensures
        r == listed(list@, id@),
{
    let n = list.len();
    for k in 0..n
        invariant
            n == list@.len(),
            forall|j: int| 0 <= j < k ==> (#[trigger] list@[j])@ != id@,
    {
        if list[k] == *id {
            return true;
        }
    }
    false
}

impl SelectedCalendars {
    /// Whether the calendar with identifier `id` is kept: every calendar for
    /// `All`, the listed ones for `Whitelist`, the others for `Blacklist`.
    pub fn includes(&self, id: &String) -> (r: bool)
        ensures
            r == selects(*self, id@),
    {
        match self {
            SelectedCalendars::All => true,
            SelectedCalendars::Whitelist(w) => contains_id(w, id),
            SelectedCalendars::Blacklist(b) => !contains_id(b, id),
        }
    }
}

/// The calendars that the policy keeps, in the provider's order.
pub fn filter_calendars(entries: Vec<CalendarEntry>, selected: &SelectedCalendars) -> (r: Vec<
    CalendarEntry,
>)
    ensures
        r@ == selected_calendars(entries@, *selected),
{
    let ghost pred = |c: CalendarEntry| selects(*selected, c.id@);
    let mut out: Vec<CalendarEntry> = Vec::new();
    let n = entries.len();
    for i in 0..n
        invariant
            n == entries@.len(),
            pred == (|c: CalendarEntry| selects(*selected, c.id@)),
            out@ == entries@.take(i as int).filter(pred),
    {
        proof {
            assert(entries@.take(i as int + 1) =~= entries@.take(i as int).push(entries@[i as int]));
            entries@.take(i as int).lemma_filter_push(entries@[i as int], pred);
        }
        if selected.includes(&entries[i].id) {
            out.push(entries[i].duplicate());
        }
    }
    assert(entries@.take(n as int) =~= entries@);
    out
}

} // verus!
