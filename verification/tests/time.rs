use authcore::time::{DateTime, Duration};

fn at(nanos: i128) -> DateTime {
    DateTime::from_unix_timestamp_nanos(nanos).unwrap()
}

#[test]
fn duration_of_one_day_is_twenty_four_hours() {
    assert_eq!(
        Duration::days(1).whole_nanoseconds(),
        Duration::hours(24).whole_nanoseconds()
    );
    assert_eq!(Duration::days(1).whole_nanoseconds(), 86_400_000_000_000);
}

#[test]
fn duration_units_in_nanoseconds() {
    assert_eq!(Duration::zero().whole_nanoseconds(), 0);
    assert_eq!(Duration::seconds(1).whole_nanoseconds(), 1_000_000_000);
    assert_eq!(Duration::minutes(10).whole_nanoseconds(), 600_000_000_000);
    assert_eq!(Duration::hours(1).whole_nanoseconds(), 3_600_000_000_000);
    assert_eq!(Duration::days(7).whole_nanoseconds(), 604_800_000_000_000);
    assert_eq!(Duration::minutes(-1).whole_nanoseconds(), -60_000_000_000);
}

#[test]
fn duration_holds_every_whole_second_of_an_i64() {
    assert_eq!(
        Duration::seconds(i64::MAX).whole_nanoseconds(),
        9_223_372_036_854_775_807_000_000_000
    );
    assert_eq!(
        Duration::seconds(i64::MIN).whole_nanoseconds(),
        -9_223_372_036_854_775_808_000_000_000
    );
}

#[test]
fn durations_compare_by_length() {
    assert!(Duration::minutes(1) < Duration::hours(1));
    assert!(Duration::hours(24) == Duration::days(1));
    assert!(Duration::days(1) > Duration::zero());
}

#[test]
fn now_is_after_the_year_2019() {
    let now = DateTime::now();
    assert!(now.unix_timestamp_nanos() > 1_546_300_800_000_000_000);
}

#[test]
fn timestamp_survives_its_stored_form() {
    let moment = at(1_700_000_000_123_456_789);
    let bytes = moment.to_bytes();
    assert_eq!(bytes.len(), 16);
    let back = DateTime::from_bytes(&bytes).unwrap();
    assert_eq!(back.unix_timestamp_nanos(), 1_700_000_000_123_456_789);
}

#[test]
fn negative_timestamp_survives_its_stored_form() {
    let moment = at(-1);
    let back = DateTime::from_bytes(&moment.to_bytes()).unwrap();
    assert_eq!(back.unix_timestamp_nanos(), -1);
}

#[test]
fn stored_form_is_the_distance_from_the_earliest_timestamp() {
    let earliest = at(-75_557_863_725_914_323_419_135);
    assert_eq!(earliest.to_bytes(), vec![0u8; 16]);
    let next = at(-75_557_863_725_914_323_419_134);
    let mut expected = vec![0u8; 16];
    expected[0] = 1;
    assert_eq!(next.to_bytes(), expected);
}

#[test]
fn stored_form_of_the_wrong_length_is_refused() {
    assert!(DateTime::from_bytes(&[0u8; 15]).is_none());
    assert!(DateTime::from_bytes(&[0u8; 17]).is_none());
    assert!(DateTime::from_bytes(&[]).is_none());
}

#[test]
fn stored_form_beyond_the_latest_timestamp_is_refused() {
    assert!(DateTime::from_bytes(&[0xffu8; 16]).is_none());
    let latest = at(75_557_863_725_914_323_419_135);
    let mut bytes = latest.to_bytes();
    assert!(DateTime::from_bytes(&bytes).is_some());
    bytes[0] = bytes[0].wrapping_add(1);
    assert!(DateTime::from_bytes(&bytes).is_none());
}

#[test]
fn timestamps_out_of_range_are_refused() {
    assert!(DateTime::from_unix_timestamp_nanos(75_557_863_725_914_323_419_135).is_some());
    assert!(DateTime::from_unix_timestamp_nanos(75_557_863_725_914_323_419_136).is_none());
    assert!(DateTime::from_unix_timestamp_nanos(-75_557_863_725_914_323_419_135).is_some());
    assert!(DateTime::from_unix_timestamp_nanos(-75_557_863_725_914_323_419_136).is_none());
}

#[test]
fn duration_since_is_the_difference() {
    let earlier = at(1_000);
    let later = at(4_500);
    assert_eq!(later.duration_since(earlier).whole_nanoseconds(), 3_500);
    assert_eq!(earlier.duration_since(later).whole_nanoseconds(), -3_500);
}

#[test]
fn adding_a_span_moves_the_point() {
    let start = at(1_700_000_000_000_000_000);
    let moved = start + Duration::minutes(10);
    assert_eq!(moved.unix_timestamp_nanos(), 1_700_000_600_000_000_000);
    let checked = start.checked_add(Duration::hours(-1)).unwrap();
    assert_eq!(checked.unix_timestamp_nanos(), 1_699_996_400_000_000_000);
}

#[test]
fn adding_beyond_the_range_gives_nothing() {
    let latest = at(75_557_863_725_914_323_419_135);
    assert!(latest.checked_add(Duration::seconds(1)).is_none());
    assert!(latest.checked_add(Duration::zero()).is_some());
}

#[test]
fn points_in_time_compare_by_timestamp() {
    assert!(at(1) < at(2));
    assert!(at(2) > at(1));
    assert!(at(-5) < at(0));
    assert!(at(7) == at(7));
    assert!(at(7) != at(8));
    assert!(at(7) <= at(7));
}

#[test]
fn milliseconds_round_toward_zero() {
    assert_eq!(at(1_999_999).serialize_unix_timestamp(), 1);
    assert_eq!(at(-1_999_999).serialize_unix_timestamp(), -1);
    assert_eq!(at(-1).serialize_unix_timestamp(), 0);
    assert_eq!(
        at(1_700_000_000_123_456_789).serialize_unix_timestamp(),
        1_700_000_000_123
    );
    assert_eq!(
        at(75_557_863_725_914_323_419_135).serialize_unix_timestamp(),
        75_557_863_725_914_323
    );
}

#[test]
fn milliseconds_give_back_a_point_in_time() {
    let moment = DateTime::deserialize_unix_timestamp(1_700_000_000_123).unwrap();
    assert_eq!(moment.unix_timestamp_nanos(), 1_700_000_000_123_000_000);
    assert!(DateTime::deserialize_unix_timestamp(i64::MAX).is_none());
    assert!(DateTime::deserialize_unix_timestamp(i64::MIN).is_none());
}
