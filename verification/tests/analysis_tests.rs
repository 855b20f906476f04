use georuggine::analysis::{analyze_movement, get_interval_start, Leg, TimeInterval};
use georuggine::model::{Coordinate, TrajectoryPoint, UserStatus};
use georuggine::time::{day_start, days_from_monday, month_start, seconds_between, Timestamp, MAX_SECS, MIN_SECS};

const NANO: f64 = 1e9;

fn deg(lat: f64, lon: f64) -> Coordinate {
    Coordinate { lat: (lat * NANO).round() as i64, lon: (lon * NANO).round() as i64 }
}

fn at(secs: i64) -> Timestamp {
    Timestamp::new(secs, 0).unwrap()
}

fn point(secs: i64, coord: Coordinate, status: UserStatus) -> TrajectoryPoint {
    TrajectoryPoint { time: at(secs), coord, status }
}

fn haversine(a: Coordinate, b: Coordinate) -> f64 {
    let (lat1, lon1) = (a.lat as f64 / NANO, a.lon as f64 / NANO);
    let (lat2, lon2) = (b.lat as f64 / NANO, b.lon as f64 / NANO);
    let r = 6371000.0;
    let d_lat = (lat2 - lat1).to_radians();
    let d_lon = (lon2 - lon1).to_radians();
    let h = (d_lat / 2.0).sin().powi(2)
        + lat1.to_radians().cos() * lat2.to_radians().cos() * (d_lon / 2.0).sin().powi(2);
    r * 2.0 * h.sqrt().atan2((1.0 - h).sqrt())
}

fn total_distance(legs: &[Leg]) -> f64 {
    legs.iter().map(|l| haversine(l.from, l.to)).sum()
}

// 2026-07-16T12:00:00Z, a Thursday.
const START: i64 = 1_784_203_200;

#[test]
fn test_analyze_movement() {
    let p1 = deg(45.0, 7.0);
    let p2 = deg(45.001, 7.001);
    let p3 = deg(45.001, 7.001);
    let history = vec![
        point(START, p1, UserStatus::Stationary),
        point(START + 30, p2, UserStatus::Moving),
        point(START + 60, p3, UserStatus::Stationary),
    ];
    let result = analyze_movement(&history, TimeInterval::All, at(START));
    assert_eq!(result.route.len(), 3);
    let distance = total_distance(&result.counted_legs);
    assert!(distance > 0.0);
    assert_eq!(result.movement_duration_secs, 30);
    assert_eq!(result.pause_duration_secs, 30);
    let average_speed = distance / result.movement_duration_secs as f64;
    assert!(average_speed > 0.0);
}

#[test]
fn analysis_skips_long_gaps_and_old_reports() {
    let a = deg(45.0, 7.0);
    let b = deg(45.01, 7.0);
    let history = vec![
        point(START - 86_400, a, UserStatus::Moving),
        point(START + 10, a, UserStatus::Stationary),
        point(START + 71, b, UserStatus::Moving),
        point(START + 131, b, UserStatus::Moving),
        point(START + 131, b, UserStatus::Stationary),
    ];
    let result = analyze_movement(&history, TimeInterval::CurrentDay, at(START));
    assert_eq!(result.route, vec![a, b, b, b]);
    assert!(result.counted_legs.is_empty());
    assert_eq!(result.movement_duration_secs, 0);
    assert_eq!(result.pause_duration_secs, 0);
}

#[test]
fn gaps_under_a_minute_count() {
    let a = deg(45.0, 7.0);
    let b = deg(45.01, 7.0);
    let history = vec![
        point(START, a, UserStatus::Stationary),
        point(START + 60, b, UserStatus::Moving),
        point(START + 119, b, UserStatus::Moving),
    ];
    let result = analyze_movement(&history, TimeInterval::All, at(START));
    assert_eq!(result.counted_legs, vec![Leg { from: b, to: b }]);
    assert_eq!(result.movement_duration_secs, 59);
    assert_eq!(total_distance(&result.counted_legs), 0.0);
}

#[test]
fn analysis_of_nothing_is_empty() {
    let result = analyze_movement(&[], TimeInterval::All, at(START));
    assert!(result.route.is_empty());
    assert!(result.counted_legs.is_empty());
    assert_eq!(result.movement_duration_secs, 0);
    assert_eq!(result.pause_duration_secs, 0);
}

#[test]
fn interval_starts() {
    let now = Timestamp::new(START + 5, 123).unwrap();
    assert_eq!(get_interval_start(TimeInterval::CurrentDay, now), at(1_784_160_000));
    assert_eq!(get_interval_start(TimeInterval::CurrentWeek, now), at(1_783_900_800));
    assert_eq!(get_interval_start(TimeInterval::CurrentMonth, now), at(1_782_864_000));
    assert_eq!(get_interval_start(TimeInterval::All, now), at(0));
}

#[test]
fn calendar_helpers_before_the_epoch() {
    assert_eq!(day_start(-3_600), -86_400);
    assert_eq!(days_from_monday(0), 3);
    assert_eq!(days_from_monday(-3_600), 2);
    assert_eq!(month_start(-3_600), -2_678_400);
}

#[test]
fn month_starts_across_the_calendar() {
    // 2024-03-15T01:00:00Z starts its month on 2024-03-01.
    assert_eq!(month_start(1_710_464_400), 1_709_251_200);
    // 2024-02-29, a leap day, belongs to February.
    assert_eq!(month_start(1_709_164_800), 1_706_745_600);
    assert_eq!(month_start(1_709_251_199), 1_706_745_600);
    assert_eq!(month_start(0), 0);
    assert_eq!(month_start(2_678_399), 0);
    assert_eq!(month_start(2_678_400), 2_678_400);
    // The calendar's first second is the first of a January.
    assert_eq!(month_start(MIN_SECS), MIN_SECS);
    assert_eq!(month_start(MIN_SECS + 30 * 86_400), MIN_SECS);
    // Its last second falls on December 31.
    assert_eq!(month_start(MAX_SECS), MAX_SECS - 30 * 86_400 - 86_399);
    assert!(Timestamp::new(MIN_SECS - 1, 0).is_none());
    assert!(Timestamp::new(MAX_SECS + 1, 0).is_none());
}

#[test]
fn seconds_between_rounds_towards_zero() {
    let a = Timestamp::new(100, 900_000_000).unwrap();
    let b = Timestamp::new(102, 100_000_000).unwrap();
    assert_eq!(seconds_between(b, a), 1);
    assert_eq!(seconds_between(a, b), -1);
    assert_eq!(seconds_between(a, a), 0);
    assert!(Timestamp::new(0, 1_000_000_000).is_none());
}

#[test]
fn seconds_across_a_leap_second() {
    // 2016-12-31T23:59:59Z, the last second before a leap second.
    let before = Timestamp::new(1_483_228_799, 0).unwrap();
    let leap = Timestamp::new(1_483_228_799, 1_500_000_000).unwrap();
    let after = Timestamp::new(1_483_228_800, 0).unwrap();
    assert_eq!(seconds_between(leap, before), 1);
    assert_eq!(seconds_between(after, before), 1);
    assert_eq!(seconds_between(after, leap), 0);
    assert_eq!(seconds_between(Timestamp::new(1_483_228_801, 600_000_000).unwrap(), leap), 1);
    assert!(Timestamp::new(1_483_228_800, 1_500_000_000).is_none());
}

#[test]
fn seconds_between_agrees_with_chrono() {
    let samples = [
        (1_483_228_799i64, 0u32),
        (1_483_228_799, 1_500_000_000),
        (1_483_228_799, 1_999_999_999),
        (1_483_228_800, 0),
        (1_483_228_801, 600_000_000),
        (1_483_228_740, 250_000_000),
        (-1, 1_200_000_000),
        (-61, 5),
        (0, 999_999_999),
    ];
    for &(s1, n1) in &samples {
        for &(s2, n2) in &samples {
            let a = Timestamp::new(s1, n1).unwrap();
            let b = Timestamp::new(s2, n2).unwrap();
            let da = chrono::DateTime::from_timestamp(s1, n1).unwrap();
            let db = chrono::DateTime::from_timestamp(s2, n2).unwrap();
            assert_eq!(seconds_between(a, b), da.signed_duration_since(db).num_seconds(), "{:?} {:?}", a, b);
            assert_eq!(a.at_or_after(&b), da >= db);
        }
    }
}
