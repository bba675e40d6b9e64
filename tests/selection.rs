use train_gateway::timestamp::{normalize_timestamp, now, repair_timestamp, PointInTime};
use train_gateway::trips::{
    departure, first_upcoming, select, select_most_immediate, select_upcoming, Departure, Leg,
    LegStation, SelectError, SelectionStrategy, Trip,
};

fn station(code: &str, actual: &str) -> LegStation {
    LegStation {
        station_code: code.to_string(),
        planned_date_time: actual.to_string(),
        actual_date_time: actual.to_string(),
        planned_track: "5".to_string(),
        actual_track: "5b".to_string(),
    }
}

fn trip(code: &str, actual: &str) -> Trip {
    Trip { legs: vec![Leg { origin: station(code, actual) }, Leg { origin: station("XX", actual) }] }
}

fn legless() -> Trip {
    Trip { legs: Vec::new() }
}

// 2024-01-01T08:15:00Z, the instant of 2024-01-01T10:15:00+02:00
const REF_SECS: i64 = 1704096900;

fn at(secs: i64) -> PointInTime {
    PointInTime { secs, nanos: 0 }
}

#[test]
fn repair_compact_offset() {
    assert_eq!(repair_timestamp("2024-01-01T10:15:00+0200"), "2024-01-01T10:15:00+02:00");
    assert_eq!(repair_timestamp("2024-01-01T10:15:00-0530"), "2024-01-01T10:15:00-05:00");
}

#[test]
fn repair_keeps_colon_offset_and_is_idempotent() {
    let good = "2024-01-01T10:15:00+02:00";
    assert_eq!(repair_timestamp(good), good);
    let once = repair_timestamp("2024-01-01T10:15:00+0200");
    assert_eq!(repair_timestamp(&once), once);
    assert_eq!(repair_timestamp("2024-01-01T10:15:00Z"), "2024-01-01T10:15:00Z");
    assert_eq!(repair_timestamp(""), "");
}

#[test]
fn normalize_parses_repaired_value() {
    let t = normalize_timestamp("2024-01-01T10:15:00+0200").unwrap();
    assert_eq!(t, at(REF_SECS));
    let u = normalize_timestamp("2024-01-01T10:15:00.5+02:00").unwrap();
    assert_eq!(u, PointInTime { secs: REF_SECS, nanos: 500_000_000 });
}

#[test]
fn normalize_rejects_other_malformed_input() {
    assert_eq!(normalize_timestamp("not a time"), None);
    assert_eq!(normalize_timestamp("2024-13-01T10:15:00+0200"), None);
    assert_eq!(normalize_timestamp(""), None);
}

#[test]
fn point_in_time_order() {
    assert!(at(2).is_after(&at(1)));
    assert!(!at(1).is_after(&at(1)));
    assert!(PointInTime { secs: 1, nanos: 2 }.is_after(&PointInTime { secs: 1, nanos: 1 }));
    assert!(!at(0).is_after(&PointInTime { secs: 0, nanos: 1 }));
    let a = now();
    let b = now();
    assert!(!a.is_after(&b));
}

#[test]
fn first_qualifying_trip_wins() {
    let trips = vec![
        trip("PAST", "2024-01-01T09:00:00+0200"),
        legless(),
        trip("NEXT", "2024-01-01T11:00:00+0200"),
        trip("LATER", "2024-01-01T12:00:00+0200"),
        trip("TIE", "2024-01-01T11:00:00+0200"),
    ];
    let r = select_upcoming(&trips, at(REF_SECS)).unwrap().unwrap();
    assert_eq!(r.station_code, "NEXT");
    assert_eq!(r, station("NEXT", "2024-01-01T11:00:00+0200"));
}

#[test]
fn equal_time_is_not_upcoming() {
    let trips = vec![trip("SAME", "2024-01-01T10:15:00+0200")];
    assert_eq!(select_upcoming(&trips, at(REF_SECS)), Ok(None));
    assert_eq!(select_upcoming(&trips, at(REF_SECS - 1)), Ok(Some(station("SAME", "2024-01-01T10:15:00+0200"))));
}

#[test]
fn empty_trip_list_selects_nothing() {
    let trips: Vec<Trip> = Vec::new();
    assert_eq!(select(SelectionStrategy::NextUpcoming, &trips, at(0)), Ok(None));
    assert_eq!(select(SelectionStrategy::MostImmediate, &trips, at(0)), Ok(None));
}

#[test]
fn legless_first_trip() {
    let trips = vec![legless(), trip("A", "2024-01-01T11:00:00+0200")];
    assert_eq!(
        select(SelectionStrategy::NextUpcoming, &trips, at(REF_SECS)),
        Ok(Some(station("A", "2024-01-01T11:00:00+0200")))
    );
    assert_eq!(select(SelectionStrategy::MostImmediate, &trips, at(REF_SECS)), Err(SelectError::MissingLeg));
    assert_eq!(select_most_immediate(&trips), Err(SelectError::MissingLeg));
}

#[test]
fn most_immediate_ignores_time() {
    let trips = vec![trip("OLD", "2000-01-01T10:00:00+0100"), trip("NEW", "2030-01-01T10:00:00+0100")];
    assert_eq!(
        select(SelectionStrategy::MostImmediate, &trips, at(REF_SECS)),
        Ok(Some(station("OLD", "2000-01-01T10:00:00+0100")))
    );
}

#[test]
fn malformed_timestamp_is_an_error() {
    let trips = vec![trip("BAD", "yesterday"), trip("GOOD", "2030-01-01T10:00:00+0100")];
    assert_eq!(
        select(SelectionStrategy::NextUpcoming, &trips, at(REF_SECS)),
        Err(SelectError::MalformedTimestamp("yesterday".to_string()))
    );
    let after = vec![trip("GOOD", "2030-01-01T10:00:00+0100"), trip("BAD", "yesterday")];
    assert_eq!(
        select(SelectionStrategy::NextUpcoming, &after, at(REF_SECS)).unwrap().unwrap().station_code,
        "GOOD"
    );
}

#[test]
fn copied_keeps_every_field() {
    let s = station("UT", "2024-01-01T10:15:00+0200");
    assert_eq!(s.copied(), s);
}

#[test]
fn first_upcoming_over_departures() {
    let deps = vec![Departure::NoLeg, Departure::At(at(2)), Departure::At(at(5)), Departure::Unreadable];
    assert_eq!(first_upcoming(&deps, at(3)), Ok(Some(2)));
    assert_eq!(first_upcoming(&deps, at(5)), Err(3));
    assert_eq!(first_upcoming(&vec![Departure::Unreadable, Departure::At(at(9))], at(3)), Err(0));
    assert_eq!(first_upcoming(&vec![Departure::NoLeg], at(3)), Ok(None));
    assert_eq!(first_upcoming(&Vec::new(), at(3)), Ok(None));
}

#[test]
fn departure_of_trip() {
    assert_eq!(departure(&legless()), Departure::NoLeg);
    assert_eq!(departure(&trip("A", "garbage")), Departure::Unreadable);
    assert_eq!(departure(&trip("A", "2024-01-01T10:15:00+0200")), Departure::At(at(REF_SECS)));
}
