use vstd::prelude::*;
use crate::authenticate::Creds;

verus! {

/// Which of the user's calendars are read.
#[derive(Clone, Debug, PartialEq, Eq)]
pub enum SelectedCalendars {
    All,
    Whitelist(Vec<String>),
    Blacklist(Vec<String>),
}

/// The user's settings.
#[derive(Clone, Debug, PartialEq, Eq)]
pub struct Config {
    pub creds: Creds,
    /// Fetch from the provider even where the cache is fresh.
    pub nocache: bool,
    /// How long fetched events stay fresh, in seconds.
    pub cache_duration_seconds: i64,
    pub selected_calendars: SelectedCalendars,
    /// An upcoming event further away than this many seconds is not
    /// reported.
    pub max_time_until_event_seconds: Option<i64>,
}

/// Thirty minutes, in seconds.
pub const DEFAULT_CACHE_DURATION_SECONDS: i64 = 1800;

impl Config {
    /// Settings with empty credentials, the cache on with a thirty-minute
    /// lifetime, every calendar read, and no horizon.
    pub fn new_default() -> (r: Config)
        ensures
            r.creds.client_id@.len() == 0,
            r.creds.client_secret@.len() == 0,
            r.creds.token@.len() == 0,
            r.creds.refresh_token@.len() == 0,
            !r.nocache,
            r.cache_duration_seconds == 30 * 60,
            r.selected_calendars is All,
            r.max_time_until_event_seconds is None,
    {
        Config {
            creds: Creds {
                client_id: String::new(),
                client_secret: String::new(),
                token: String::new(),
                refresh_token: String::new(),
            },
            nocache: false,
            cache_duration_seconds: DEFAULT_CACHE_DURATION_SECONDS,
            selected_calendars: SelectedCalendars::All,
            max_time_until_event_seconds: None,
        }
    }
}

} // verus!
