use gcalendar_next_event::event::{format_clock_12h, is_all_day, normalize_events, Event, RawEvent};
use gcalendar_next_event::selector::get_next_event;

fn raw(summary: &str, location: &str, start: Option<i64>, end: Option<i64>) -> RawEvent {
    RawEvent { summary: summary.to_string(), location: location.to_string(), start_time: start, end_time: end }
}

#[test]
fn all_day_when_no_time_on_either_boundary() {
    assert!(is_all_day(&raw("holiday", "", None, None)));
    assert!(!is_all_day(&raw("half", "", Some(1), None)));
    assert!(!is_all_day(&raw("timed", "", Some(1), Some(2))));
}

#[test]
fn from_raw_converts_location() {
    let e = Event::from_raw(&raw("meet", "", Some(100), Some(200))).unwrap();
    assert_eq!(e, Event { title: "meet".to_string(), location: None, start_time: 100, end_time: 200 });
    let f = Event::from_raw(&raw("meet", "Room 1", Some(100), Some(200))).unwrap();
    assert_eq!(f.location, Some("Room 1".to_string()));
    assert_eq!(Event::from_raw(&raw("backwards", "", Some(200), Some(100))), None);
}

#[test]
fn normalize_drops_all_day_events() {
    let raws = vec![
        raw("holiday", "", None, None),
        raw("a", "", Some(10), Some(20)),
        raw("half", "", Some(15), None),
        raw("b", "Hall", Some(30), Some(40)),
    ];
    let events = normalize_events(&raws);
    let titles: Vec<&str> = events.iter().map(|e| e.title.as_str()).collect();
    assert_eq!(titles, vec!["a", "b"]);
    assert_eq!(get_next_event(&events, 0, None).unwrap().title, "a");
    let only_all_day = vec![raw("holiday", "", None, None)];
    assert_eq!(get_next_event(&normalize_events(&only_all_day), 0, None), None);
}

#[test]
fn clock_is_twelve_hour() {
    assert_eq!(format_clock_12h(0), "12:00 AM");
    assert_eq!(format_clock_12h(9 * 3600 + 5 * 60 + 59), "09:05 AM");
    assert_eq!(format_clock_12h(12 * 3600), "12:00 PM");
    assert_eq!(format_clock_12h(23 * 3600 + 59 * 60), "11:59 PM");
    assert_eq!(format_clock_12h(-60), "11:59 PM");
    assert_eq!(format_clock_12h(86400 * 3 + 13 * 3600 + 30 * 60), "01:30 PM");
}

#[test]
fn status_line_with_and_without_location() {
    // 2023-11-14 22:13:20 UTC
    let e = Event { title: "Standup".to_string(), location: None, start_time: 1_700_000_000, end_time: 1_700_000_600 };
    assert_eq!(e.format_status_line_at(0), "Standup: 10:13 PM");
    assert_eq!(e.format_status_line_at(3600), "Standup: 11:13 PM");
    assert_eq!(e.format_status_line_at(-8 * 3600), "Standup: 02:13 PM");
    let f = Event { location: Some("Room 4".to_string()), ..e.clone() };
    assert_eq!(f.format_status_line_at(0), "Standup [Room 4]: 10:13 PM");
}

#[test]
fn status_line_on_local_clock_has_report_shape() {
    let e = Event { title: "Standup".to_string(), location: Some("R".to_string()), start_time: 1_700_000_000, end_time: 1_700_000_600 };
    let line = e.format_status_line();
    assert!(line.starts_with("Standup [R]: "));
    assert_eq!(line.len(), "Standup [R]: ".len() + 8);
    assert!(line.ends_with(" AM") || line.ends_with(" PM"));
    assert!(line.ends_with(":13 PM") || line.ends_with(":13 AM") || line.ends_with(":43 PM") || line.ends_with(":43 AM") || line.ends_with(":58 PM") || line.ends_with(":58 AM") || line.ends_with(":28 PM") || line.ends_with(":28 AM"));
}
