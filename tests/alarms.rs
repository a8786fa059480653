use resident_alarms::{Alarm, RecordStore, Resident, ResidentError};

fn store_with_ann() -> (RecordStore, i64) {
    let mut store = RecordStore::new();
    let ann = Resident::new("Ann", "1990-01-01", "RoomA", "2020-01-01").unwrap();
    let birth = ann.birth;
    store.insert_new(ann).unwrap();
    (store, birth)
}

#[test]
fn open_then_close_with_explicit_duration() {
    let (mut store, birth) = store_with_ann();
    let t = store.open_alarm("Ann", birth, "fall", 10_000).unwrap();
    assert_eq!(t, 10_000);
    assert_eq!(store.close_alarm("Ann", birth, t, Some(7), 999_999_000), Ok(7));
    let r = store.find("Ann", birth).unwrap();
    assert!(r.active_alarms.is_empty());
    assert_eq!(r.alarms, vec![Alarm { time: t, duration_sec: 7, message: "fall".to_string() }]);
}

#[test]
fn open_then_close_with_elapsed_duration() {
    let (mut store, birth) = store_with_ann();
    let t = store.open_alarm("Ann", birth, "fall", 1_000).unwrap();
    assert_eq!(store.close_alarm("Ann", birth, t, None, 62_500), Ok(61));
    assert_eq!(store.find("Ann", birth).unwrap().alarms[0].duration_sec, 61);
}

#[test]
fn close_before_open_time_lasts_zero() {
    let (mut store, birth) = store_with_ann();
    let t = store.open_alarm("Ann", birth, "fall", 50_000).unwrap();
    assert_eq!(store.close_alarm("Ann", birth, t, None, 10_000), Ok(0));
}

#[test]
fn open_then_close_on_the_clock() {
    let (mut store, birth) = store_with_ann();
    let t = store.open_alarm_now("Ann", birth, "door").unwrap();
    // 2020-01-01T00:00:00Z: the clock reads a real instant
    assert!(t > 1_577_836_800_000);
    let d = store.close_alarm_now("Ann", birth, t, None).unwrap();
    assert!(d < 60);
    let r = store.find("Ann", birth).unwrap();
    assert_eq!(r.alarms.len(), 1);
    assert_eq!(r.alarms[0].time, t);
    assert_eq!(r.alarms[0].message, "door");
    assert!(r.active_alarms.is_empty());
}

#[test]
fn explicit_duration_ignores_the_clock() {
    let (mut store, birth) = store_with_ann();
    let t = store.open_alarm_now("Ann", birth, "door").unwrap();
    assert_eq!(store.close_alarm_now("Ann", birth, t, Some(600)), Ok(600));
}

#[test]
fn closing_twice_finds_no_alarm() {
    let (mut store, birth) = store_with_ann();
    let t = store.open_alarm("Ann", birth, "smoke", 5_000).unwrap();
    assert_eq!(store.close_alarm("Ann", birth, t, Some(3), 6_000), Ok(3));
    assert_eq!(
        store.close_alarm("Ann", birth, t, Some(3), 7_000),
        Err(ResidentError::AlarmNotFound)
    );
    assert_eq!(store.find("Ann", birth).unwrap().alarms.len(), 1);
}

#[test]
fn closing_unknown_alarm_or_resident() {
    let (mut store, birth) = store_with_ann();
    store.open_alarm("Ann", birth, "smoke", 5_000).unwrap();
    assert_eq!(
        store.close_alarm("Ann", birth, 4_999, None, 9_000),
        Err(ResidentError::AlarmNotFound)
    );
    assert_eq!(
        store.close_alarm("Bob", birth, 5_000, None, 9_000),
        Err(ResidentError::ResidentNotFound)
    );
    let r = store.find("Ann", birth).unwrap();
    assert_eq!(r.active_alarms.len(), 1);
    assert!(r.alarms.is_empty());
}

#[test]
fn opening_for_unknown_resident() {
    let (mut store, birth) = store_with_ann();
    assert_eq!(
        store.open_alarm("Ann", birth + 1, "smoke", 5_000),
        Err(ResidentError::ResidentNotFound)
    );
    assert_eq!(
        store.open_alarm_now("Nobody", birth, "smoke"),
        Err(ResidentError::ResidentNotFound)
    );
}

#[test]
fn opening_twice_at_one_instant_is_refused() {
    let (mut store, birth) = store_with_ann();
    assert_eq!(store.open_alarm("Ann", birth, "a", 5_000), Ok(5_000));
    assert_eq!(store.open_alarm("Ann", birth, "b", 5_000), Err(ResidentError::DuplicateAlarm));
    assert_eq!(store.open_alarm("Ann", birth, "c", 5_001), Ok(5_001));
    let r = store.find("Ann", birth).unwrap();
    assert_eq!(r.active_alarms.len(), 2);
    assert_eq!(r.active_alarms[1].message, "c");
}

#[test]
fn closing_keeps_the_other_open_alarms_in_order() {
    let (mut store, birth) = store_with_ann();
    for t in [1_000, 2_000, 3_000] {
        store.open_alarm("Ann", birth, "x", t).unwrap();
    }
    store.close_alarm("Ann", birth, 2_000, Some(1), 4_000).unwrap();
    let r = store.find("Ann", birth).unwrap();
    let times: Vec<i64> = r.active_alarms.iter().map(|a| a.time).collect();
    assert_eq!(times, vec![1_000, 3_000]);
}

#[test]
fn resident_level_lifecycle() {
    let mut r = Resident::new("Ann", "1990-01-01", "RoomA", "2020-01-01").unwrap();
    assert_eq!(r.open_alarm("smoke", 1_000), Ok(1_000));
    assert_eq!(r.close_alarm(1_000, None, 3_999), Ok(2));
    assert_eq!(r.close_alarm(1_000, None, 3_999), Err(ResidentError::AlarmNotFound));
    assert_eq!(r.alarms[0].message, "smoke");
}
