use resident_alarms::{
    report_window, sort_by_location, summarize, timedelta_parts, Alarm, RecordStore, ReportRow,
    Resident, Window,
};

const DAY: i64 = 86_400_000;

fn with_alarms(name: &str, location: &str, closed: &[(i64, u64)], open: &[i64]) -> Resident {
    let mut r = Resident::new(name, "1990-01-01", location, "2020-01-01").unwrap();
    for (time, duration_sec) in closed {
        r.alarms.push(Alarm { time: *time, duration_sec: *duration_sec, message: "m".to_string() });
    }
    for t in open {
        r.open_alarm("open", *t).unwrap();
    }
    r
}

#[test]
fn active_alarm_appears_in_every_window() {
    let store = RecordStore::from_residents(vec![with_alarms("Ann", "RoomA", &[], &[5 * DAY])]).unwrap();
    for w in [Window { from: 0, to: DAY - 1 }, Window { from: 100 * DAY, to: 200 * DAY }] {
        let rows = store.report(w, None, None);
        assert_eq!(rows.len(), 1);
        assert_eq!(rows[0].name, "Ann");
        assert_eq!(rows[0].alarms_count, 0);
        assert_eq!(rows[0].alarms_avg_duration, None);
        assert_eq!(rows[0].alarms_min_time, None);
        assert_eq!(rows[0].active_alarms_count, 1);
    }
}

#[test]
fn only_closed_alarms_outside_window_is_left_out() {
    let store = RecordStore::from_residents(vec![
        with_alarms("Ann", "RoomA", &[(10 * DAY, 30), (20 * DAY, 40)], &[]),
        with_alarms("Bob", "RoomB", &[(15 * DAY, 30)], &[]),
    ])
    .unwrap();
    let rows = store.report(Window { from: 14 * DAY, to: 16 * DAY }, None, None);
    assert_eq!(rows.len(), 1);
    assert_eq!(rows[0].name, "Bob");
    assert!(store.report(Window { from: 30 * DAY, to: 40 * DAY }, None, None).is_empty());
}

#[test]
fn window_bounds_are_inclusive() {
    let store = RecordStore::from_residents(vec![with_alarms(
        "Ann",
        "RoomA",
        &[(DAY, 1), (2 * DAY - 1, 2), (2 * DAY, 4)],
        &[],
    )])
    .unwrap();
    let w = report_window("1970-01-02", "1970-01-02").unwrap();
    let rows = store.report(w, None, None);
    assert_eq!(rows[0].alarms_count, 2);
    assert_eq!(rows[0].alarms_duration_total, 3);
}

#[test]
fn three_alarms_aggregate() {
    let store = RecordStore::from_residents(vec![with_alarms(
        "Ann",
        "RoomA",
        &[(3 * DAY, 20), (2 * DAY, 10), (4 * DAY, 30)],
        &[],
    )])
    .unwrap();
    let rows = store.report(Window { from: 0, to: 10 * DAY }, None, None);
    assert_eq!(rows.len(), 1);
    assert_eq!(rows[0].alarms_count, 3);
    assert_eq!(rows[0].alarms_avg_duration, Some(20));
    assert_eq!(rows[0].alarms_duration_total, 60);
    assert_eq!(rows[0].alarms_min_time, Some(2 * DAY));
    assert_eq!(rows[0].alarms_max_time, Some(4 * DAY));
    assert_eq!(rows[0].active_alarms_count, 0);
}

#[test]
fn mean_duration_rounds_down() {
    let r = with_alarms("Ann", "RoomA", &[(1, 10), (2, 11)], &[]);
    let row = summarize(&r, Window { from: 0, to: 10 });
    assert_eq!(row.alarms_avg_duration, Some(10));
    assert_eq!(row.alarms_duration_total, 21);
}

#[test]
fn largest_durations_do_not_overflow() {
    let r = with_alarms("Ann", "RoomA", &[(1, u64::MAX), (2, u64::MAX)], &[]);
    let row = summarize(&r, Window { from: 0, to: 10 });
    assert_eq!(row.alarms_duration_total, 2 * (u64::MAX as u128));
    assert_eq!(row.alarms_avg_duration, Some(u64::MAX));
}

#[test]
fn smoke_scenario() {
    let mut store = RecordStore::new();
    let ann = Resident::new("Ann", "1990-01-01", "RoomA", "2020-01-01").unwrap();
    let birth = ann.birth;
    store.insert_new(ann).unwrap();
    let t = store.open_alarm_now("Ann", birth, "smoke").unwrap();
    assert_eq!(store.close_alarm_now("Ann", birth, t, Some(42)), Ok(42));
    let r = store.find("Ann", birth).unwrap();
    assert_eq!(r.alarms, vec![Alarm { time: t, duration_sec: 42, message: "smoke".to_string() }]);
    assert!(r.active_alarms.is_empty());
    let w = Window { from: t - DAY, to: t + DAY };
    let rows = store.report(w, None, None);
    assert_eq!(rows.len(), 1);
    assert_eq!(rows[0].alarms_count, 1);
    assert_eq!(rows[0].alarms_avg_duration, Some(42));
    assert_eq!(rows[0].active_alarms_count, 0);
}

#[test]
fn name_or_location_pattern_lets_in() {
    let store = RecordStore::from_residents(vec![
        with_alarms("Ann", "RoomA", &[], &[1]),
        with_alarms("Bob", "RoomB", &[], &[1]),
        with_alarms("Cid", "RoomC", &[], &[1]),
    ])
    .unwrap();
    let w = Window { from: 0, to: 1 };
    let names = vec![false, true, false];
    let locations = vec![true, false, false];
    let rows = store.report(w, Some(&names), Some(&locations));
    let got: Vec<&str> = rows.iter().map(|r| r.name.as_str()).collect();
    assert_eq!(got, vec!["Ann", "Bob"]);
    let only_names = store.report(w, Some(&names), None);
    assert_eq!(only_names.len(), 1);
    assert_eq!(only_names[0].name, "Bob");
    let only_locations = store.report(w, None, Some(&locations));
    assert_eq!(only_locations.len(), 1);
    assert_eq!(only_locations[0].name, "Ann");
}

#[test]
fn rows_come_by_location() {
    let store = RecordStore::from_residents(vec![
        with_alarms("A", "Room 2", &[], &[1]),
        with_alarms("B", "Room 10", &[], &[1]),
        with_alarms("C", "Room", &[], &[1]),
        with_alarms("D", "Room 2", &[], &[1]),
        with_alarms("E", "Annex", &[], &[1]),
    ])
    .unwrap();
    let rows = store.report(Window { from: 0, to: 1 }, None, None);
    let got: Vec<&str> = rows.iter().map(|r| r.name.as_str()).collect();
    assert_eq!(got, vec!["E", "C", "B", "A", "D"]);
}

#[test]
fn sort_keeps_every_row() {
    let row = |name: &str, location: &str| ReportRow {
        name: name.to_string(),
        location: location.to_string(),
        alarms_count: 0,
        alarms_duration_total: 0,
        alarms_avg_duration: None,
        alarms_min_time: None,
        alarms_max_time: None,
        active_alarms_count: 1,
    };
    let sorted = sort_by_location(vec![row("x", "b"), row("y", "a"), row("z", "b"), row("w", "")]);
    let got: Vec<&str> = sorted.iter().map(|r| r.name.as_str()).collect();
    assert_eq!(got, vec!["w", "y", "x", "z"]);
    assert!(sort_by_location(Vec::new()).is_empty());
}

#[test]
fn minutes_split_into_days_hours_minutes() {
    assert_eq!(timedelta_parts(0), (0, 0, 0));
    assert_eq!(timedelta_parts(59), (0, 0, 59));
    assert_eq!(timedelta_parts(61), (0, 1, 1));
    assert_eq!(timedelta_parts(1440 + 125), (1, 2, 5));
}
