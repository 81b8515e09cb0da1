use linear_regression::error::DataError;
use linear_regression::features::{
    local_time_features, parse_timestamp, pickup_time_features, time_features, unix_seconds,
    TimeFeatures, UtcDateTime,
};
use linear_regression::records::{
    engineer_records, RawDatafieldToFeaturesMapper, RawTrip, TaxifareDatasetRawItem,
};

fn at(year: u16, month: u8, day: u8, hour: u8, minute: u8, second: u8) -> UtcDateTime {
    UtcDateTime { year, month, day, hour, minute, second }
}

#[test]
fn parses_well_formed_timestamp() {
    assert_eq!(parse_timestamp("2010-04-19 08:17:56 UTC"), Some(at(2010, 4, 19, 8, 17, 56)));
    assert_eq!(parse_timestamp("2012-02-29 23:59:59 UTC"), Some(at(2012, 2, 29, 23, 59, 59)));
    assert_eq!(parse_timestamp("2000-02-29 00:00:00 UTC"), Some(at(2000, 2, 29, 0, 0, 0)));
}

#[test]
fn refuses_malformed_timestamps() {
    assert_eq!(parse_timestamp("2010-04-19 08:17:56"), None);
    assert_eq!(parse_timestamp("2010-04-19T08:17:56 UTC"), None);
    assert_eq!(parse_timestamp("2010-04-19 08:17:56 GMT"), None);
    assert_eq!(parse_timestamp("2010-4-19 08:17:56 UTC "), None);
    assert_eq!(parse_timestamp("20a0-04-19 08:17:56 UTC"), None);
    assert_eq!(parse_timestamp(""), None);
}

#[test]
fn refuses_impossible_dates_and_times() {
    assert_eq!(parse_timestamp("2010-02-29 08:17:56 UTC"), None);
    assert_eq!(parse_timestamp("1900-02-29 08:17:56 UTC"), None);
    assert_eq!(parse_timestamp("2010-04-31 08:17:56 UTC"), None);
    assert_eq!(parse_timestamp("2010-13-01 08:17:56 UTC"), None);
    assert_eq!(parse_timestamp("2010-00-01 08:17:56 UTC"), None);
    assert_eq!(parse_timestamp("2010-04-00 08:17:56 UTC"), None);
    assert_eq!(parse_timestamp("2010-04-19 24:00:00 UTC"), None);
    assert_eq!(parse_timestamp("2010-04-19 23:60:00 UTC"), None);
    assert_eq!(parse_timestamp("2010-04-19 23:59:60 UTC"), None);
}

#[test]
fn unix_seconds_of_known_instants() {
    assert_eq!(unix_seconds(&at(1970, 1, 1, 0, 0, 0)), 0);
    assert_eq!(unix_seconds(&at(2010, 4, 19, 8, 17, 56)), 1271665076);
    assert_eq!(unix_seconds(&at(1900, 3, 1, 0, 0, 0)), -2203891200);
    assert_eq!(unix_seconds(&at(2000, 2, 29, 23, 59, 59)), 951868799);
}

#[test]
fn local_features_from_offset() {
    // 1970-01-01 00:00 was a Thursday.
    assert_eq!(
        local_time_features(0, 0),
        TimeFeatures { pickup_hour: 0, pickup_weekday: 3, am_or_pm: 0 }
    );
    // One second earlier is Wednesday 23:59:59.
    assert_eq!(
        local_time_features(-1, 0),
        TimeFeatures { pickup_hour: 23, pickup_weekday: 2, am_or_pm: 1 }
    );
    // Five hours behind UTC at noon UTC: 07:00 the same day.
    assert_eq!(
        local_time_features(43200, -18000),
        TimeFeatures { pickup_hour: 7, pickup_weekday: 3, am_or_pm: 0 }
    );
    assert_eq!(
        local_time_features(i64::MIN, i32::MIN).pickup_hour < 24,
        true
    );
}

#[test]
fn new_york_summer_time() {
    // 08:17 UTC on Monday 2010-04-19 is 04:17 in New York (UTC-4).
    assert_eq!(
        time_features("2010-04-19 08:17:56 UTC"),
        Some(TimeFeatures { pickup_hour: 4, pickup_weekday: 0, am_or_pm: 0 })
    );
}

#[test]
fn new_york_winter_time() {
    // 17:00 UTC on Friday 2010-01-01 is noon in New York (UTC-5).
    assert_eq!(
        time_features("2010-01-01 17:00:00 UTC"),
        Some(TimeFeatures { pickup_hour: 12, pickup_weekday: 4, am_or_pm: 1 })
    );
    // 03:00 UTC on Saturday is still Friday evening in New York.
    assert_eq!(
        time_features("2010-01-02 03:00:00 UTC"),
        Some(TimeFeatures { pickup_hour: 22, pickup_weekday: 4, am_or_pm: 1 })
    );
}

#[test]
fn new_york_clock_change() {
    assert_eq!(
        time_features("2010-03-14 06:59:59 UTC"),
        Some(TimeFeatures { pickup_hour: 1, pickup_weekday: 6, am_or_pm: 0 })
    );
    assert_eq!(
        time_features("2010-03-14 07:00:00 UTC"),
        Some(TimeFeatures { pickup_hour: 3, pickup_weekday: 6, am_or_pm: 0 })
    );
}

#[test]
fn time_features_of_malformed_text() {
    assert_eq!(time_features("yesterday"), None);
}

#[test]
fn load_fails_on_first_malformed_row() {
    let rows = vec![
        "2010-04-19 08:17:56 UTC".to_string(),
        "2010-04-19 08:17 UTC".to_string(),
        "bad".to_string(),
    ];
    assert_eq!(pickup_time_features(&rows), Err(DataError::MalformedTimestamp { row: 1 }));
}

#[test]
fn load_keeps_row_order() {
    let rows = vec![
        "2010-01-01 17:00:00 UTC".to_string(),
        "2010-04-19 08:17:56 UTC".to_string(),
    ];
    let features = pickup_time_features(&rows).unwrap();
    assert_eq!(features.len(), 2);
    assert_eq!(features[0], TimeFeatures { pickup_hour: 12, pickup_weekday: 4, am_or_pm: 1 });
    assert_eq!(features[1], TimeFeatures { pickup_hour: 4, pickup_weekday: 0, am_or_pm: 0 });
    assert_eq!(pickup_time_features(&Vec::new()), Ok(Vec::new()));
}

fn trip(fare: f64, stamp: &str) -> RawTrip<f64> {
    RawTrip {
        fare_amount: fare,
        pickup_datetime: stamp.to_string(),
        pickup_longitude: -73.99,
        pickup_latitude: 40.73,
        dropoff_longitude: -73.98,
        dropoff_latitude: 40.75,
        passenger_count: 2.0,
    }
}

#[test]
fn engineered_records_carry_derived_fields() {
    let trips = vec![trip(6.5, "2010-04-19 08:17:56 UTC"), trip(9.0, "2010-01-01 17:00:00 UTC")];
    let records = engineer_records(&trips, &vec![2.1, 3.4]).unwrap();
    assert_eq!(records.len(), 2);
    assert_eq!(records[0].fare_amount, 6.5);
    assert_eq!(records[0].pickup_latitude, 40.73);
    assert_eq!(records[0].pickup_longitude, -73.99);
    assert_eq!(records[0].dropoff_latitude, 40.75);
    assert_eq!(records[0].dropoff_longitude, -73.98);
    assert_eq!(records[0].passenger_count, 2.0);
    assert_eq!(records[0].distance, 2.1);
    assert_eq!(
        (records[0].pickup_hour, records[0].pickup_weekday, records[0].am_or_pm),
        (4, 0, 0)
    );
    assert_eq!(records[1].distance, 3.4);
    assert_eq!(
        (records[1].pickup_hour, records[1].pickup_weekday, records[1].am_or_pm),
        (12, 4, 1)
    );
}

#[test]
fn engineered_records_fail_fast() {
    let trips = vec![trip(6.5, "2010-04-19 08:17:56 UTC"), trip(9.0, "2010-02-30 17:00:00 UTC")];
    assert!(matches!(
        engineer_records(&trips, &vec![1.0, 1.0]),
        Err(DataError::MalformedTimestamp { row: 1 })
    ));
}

#[test]
fn mapper_orders_fields() {
    let item = TaxifareDatasetRawItem {
        fare_amount: 11.5,
        pickup_latitude: 1.0,
        pickup_longitude: 2.0,
        dropoff_latitude: 3.0,
        dropoff_longitude: 4.0,
        passenger_count: 5.0,
        distance: 6.0,
        pickup_hour: 17,
        pickup_weekday: 5,
        am_or_pm: 1,
    };
    let mapped = RawDatafieldToFeaturesMapper.map(&item);
    assert_eq!(mapped.continuous_features, [1.0, 2.0, 3.0, 4.0, 5.0, 6.0]);
    assert_eq!(mapped.label, 11.5);
    assert_eq!(mapped.discrete_weekday, 5);
    assert_eq!(mapped.discrete_hour, 17);
    assert_eq!(mapped.discrete_am_or_pm, 1);
}
