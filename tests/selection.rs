use gcalendar_next_event::event::Event;
use gcalendar_next_event::selector::{
    earliest_upcoming_event, earliest_upcoming_event_within, get_next_event, is_within_horizon,
    latest_running_event,
};

const NOW: i64 = 1_700_000_000;

fn ev(title: &str, start: i64, end: i64) -> Event {
    Event { title: title.to_string(), location: None, start_time: start, end_time: end }
}

#[test]
fn earliest_upcoming_takes_first_after_now() {
    let events = vec![ev("past", NOW - 100, NOW - 50), ev("a", NOW + 10, NOW + 20), ev("b", NOW + 30, NOW + 40)];
    assert_eq!(earliest_upcoming_event(&events, NOW), Some(1));
}

#[test]
fn earliest_upcoming_none_when_all_started() {
    let events = vec![ev("past", NOW - 100, NOW - 50), ev("now", NOW, NOW + 20)];
    assert_eq!(earliest_upcoming_event(&events, NOW), None);
}

#[test]
fn earliest_upcoming_keeps_list_order() {
    let events = vec![ev("later", NOW + 100, NOW + 200), ev("sooner", NOW + 10, NOW + 20)];
    assert_eq!(earliest_upcoming_event(&events, NOW), Some(0));
}

#[test]
fn horizon_excludes_event_exactly_at_horizon() {
    let events = vec![ev("a", NOW + 3600, NOW + 7200)];
    assert_eq!(earliest_upcoming_event_within(&events, NOW, Some(3600)), None);
    assert!(!is_within_horizon(&events[0], NOW, Some(3600)));
}

#[test]
fn horizon_includes_event_one_second_inside() {
    let events = vec![ev("a", NOW + 3599, NOW + 7200)];
    assert_eq!(earliest_upcoming_event_within(&events, NOW, Some(3600)), Some(0));
    assert!(is_within_horizon(&events[0], NOW, Some(3600)));
}

#[test]
fn no_horizon_keeps_far_event() {
    let events = vec![ev("far", NOW + 1_000_000, NOW + 1_000_100)];
    assert_eq!(earliest_upcoming_event_within(&events, NOW, None), Some(0));
    assert_eq!(get_next_event(&events, NOW, None), Some(events[0].clone()));
}

#[test]
fn latest_running_picks_latest_start() {
    let events = vec![
        ev("long", NOW - 3600, NOW + 3600),
        ev("short", NOW - 60, NOW + 60),
        ev("done", NOW - 30, NOW - 10),
    ];
    assert_eq!(latest_running_event(&events, NOW), Some(1));
}

#[test]
fn latest_running_keeps_first_on_equal_start() {
    let events = vec![ev("first", NOW - 60, NOW + 60), ev("second", NOW - 60, NOW + 120)];
    assert_eq!(latest_running_event(&events, NOW), Some(0));
}

#[test]
fn latest_running_includes_both_ends() {
    let events = vec![ev("ends now", NOW - 60, NOW), ev("starts now", NOW, NOW + 60)];
    assert_eq!(latest_running_event(&events, NOW), Some(1));
    let ending = vec![ev("ends now", NOW - 60, NOW)];
    assert_eq!(latest_running_event(&ending, NOW), Some(0));
}

#[test]
fn fallback_to_running_event() {
    let running = ev("standup", NOW - 600, NOW + 600);
    let events = vec![running.clone()];
    assert_eq!(get_next_event(&events, NOW, None), Some(running));
}

#[test]
fn upcoming_preferred_over_running() {
    let b = ev("B", NOW - 300, NOW + 1800);
    let a = ev("A", NOW + 300, NOW + 900);
    let events = vec![b, a.clone()];
    assert_eq!(get_next_event(&events, NOW, None), Some(a.clone()));
    assert_eq!(get_next_event(&events, NOW, Some(3600)), Some(a));
}

#[test]
fn running_reported_when_upcoming_beyond_horizon() {
    let b = ev("B", NOW - 300, NOW + 1800);
    let a = ev("A", NOW + 7200, NOW + 9000);
    let events = vec![b.clone(), a];
    assert_eq!(get_next_event(&events, NOW, Some(3600)), Some(b));
}

#[test]
fn empty_list_gives_none() {
    let events: Vec<Event> = vec![];
    assert_eq!(get_next_event(&events, NOW, None), None);
    assert_eq!(get_next_event(&events, NOW, Some(3600)), None);
}

#[test]
fn nothing_running_or_upcoming_gives_none() {
    let events = vec![ev("over", NOW - 600, NOW - 1)];
    assert_eq!(get_next_event(&events, NOW, None), None);
}
