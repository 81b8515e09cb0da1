//! Trip records: the raw trip, the engineered record the dataset is read
//! from, and the model-ready item with its continuous and categorical fields.
//! Real-valued fields have a type parameter `F`, the scalar type chosen by
//! the caller.
use vstd::prelude::*;
use vstd::utf8::encode_utf8;

use crate::error::DataError;
use crate::features::{
    is_timestamp_text, pickup_features_of, pickup_time_features, TimeFeatures,
};

verus! {

/// Number of continuous fields fed to the model.
pub const NUM_CONTINUOUS: usize = 6;

/// Number of categorical fields fed to the model.
pub const NUM_CATEGORICAL: usize = 3;

/// One trip as read from the input table.
#[derive(Debug, Clone)]
pub struct RawTrip<F> {
    pub fare_amount: F,
    pub pickup_datetime: String,
    pub pickup_longitude: F,
    pub pickup_latitude: F,
    pub dropoff_longitude: F,
    pub dropoff_latitude: F,
    pub passenger_count: F,
}

/// A trip with its derived fields: the record the dataset is built from.
#[derive(Debug, Clone, Copy)]
pub struct TaxifareDatasetRawItem<F> {
    pub fare_amount: F,
    pub pickup_latitude: F,
    pub pickup_longitude: F,
    pub dropoff_latitude: F,
    pub dropoff_longitude: F,
    pub passenger_count: F,
    pub distance: F,
    pub pickup_hour: u8,
    pub pickup_weekday: u8,
    pub am_or_pm: u8,
}

/// A record as the model reads it: three category indices, six continuous
/// values and the label.
#[derive(Debug, Clone, Copy)]
pub struct TaxifareDatasetMappedItem<F> {
    pub discrete_weekday: u8,
    pub discrete_hour: u8,
    pub discrete_am_or_pm: u8,
    pub continuous_features: [F; 6],
    pub label: F,
}

/// The engineered record of a trip, given its distance and pickup features.
pub open spec fn engineered_record_of<F>(
    trip: RawTrip<F>,
    distance: F,
    time: TimeFeatures,
) -> TaxifareDatasetRawItem<F> {
    TaxifareDatasetRawItem {
        fare_amount: trip.fare_amount,
        pickup_latitude: trip.pickup_latitude,
        pickup_longitude: trip.pickup_longitude,
        dropoff_latitude: trip.dropoff_latitude,
        dropoff_longitude: trip.dropoff_longitude,
        passenger_count: trip.passenger_count,
        distance,
        pickup_hour: time.pickup_hour,
        pickup_weekday: time.pickup_weekday,
        am_or_pm: time.am_or_pm,
    }
}

/// Engineered records of `trips`, in row order, where `distances[i]` is the
/// trip distance of row `i`. The first malformed pickup timestamp fails the
/// whole load.
pub fn engineer_records<F: Copy>(trips: &Vec<RawTrip<F>>, distances: &Vec<F>) -> (r: Result<
    Vec<TaxifareDatasetRawItem<F>>,
    DataError,
>)
    requires
        distances@.len() == trips@.len(),
    ensures
        r is Ok <==> forall|i: int|
            0 <= i < trips@.len() ==> is_timestamp_text(#[trigger] trips@[i].pickup_datetime@),
        r matches Ok(v) ==> v@.len() == trips@.len() && forall|i: int|
            0 <= i < trips@.len() ==> #[trigger] v@[i] == engineered_record_of(
                trips@[i],
                distances@[i],
                pickup_features_of(encode_utf8(trips@[i].pickup_datetime@)),
            ),
        r matches Err(e) ==> e matches DataError::MalformedTimestamp { row } && row
            < trips@.len() && !is_timestamp_text(trips@[row as int].pickup_datetime@)
            && forall|i: int|
            0 <= i < row ==> is_timestamp_text(#[trigger] trips@[i].pickup_datetime@),
{
    let mut stamps: Vec<String> = Vec::new();
    let mut i: usize = 0;
    while i < trips.len()
        invariant
            i <= trips@.len(),
            stamps@.len() == i,
            forall|j: int| 0 <= j < i ==> #[trigger] stamps@[j]@ == trips@[j].pickup_datetime@,
        decreases trips@.len() - i,
    {
        stamps.push(trips[i].pickup_datetime.clone());
        i = i + 1;
    }
    let times = match pickup_time_features(&stamps) {
        Ok(t) => t,
        Err(e) => {
            proof {
                let row = e->MalformedTimestamp_row;
                assert(stamps@[row as int]@ == trips@[row as int].pickup_datetime@);
                assert forall|j: int| 0 <= j < row implies is_timestamp_text(
                    #[trigger] trips@[j].pickup_datetime@,
                ) by {
                    assert(stamps@[j]@ == trips@[j].pickup_datetime@);
                }
            }
            return Err(e);
        },
    };
    assert forall|j: int| 0 <= j < trips@.len() implies is_timestamp_text(
        #[trigger] trips@[j].pickup_datetime@,
    ) by {
        assert(stamps@[j]@ == trips@[j].pickup_datetime@);
        assert(is_timestamp_text(stamps@[j]@));
    }
    let mut out: Vec<TaxifareDatasetRawItem<F>> = Vec::new();
    let mut k: usize = 0;
    while k < trips.len()
        invariant
            k <= trips@.len(),
            distances@.len() == trips@.len(),
            times@.len() == trips@.len(),
            out@.len() == k,
            forall|j: int| 0 <= j < trips@.len() ==> #[trigger] stamps@[j]@ == trips@[j].pickup_datetime@,
            forall|j: int|
                0 <= j < trips@.len() ==> #[trigger] times@[j] == pickup_features_of(
                    encode_utf8(stamps@[j]@),
                ),
            forall|j: int|
                0 <= j < k ==> #[trigger] out@[j] == engineered_record_of(
                    trips@[j],
                    distances@[j],
                    pickup_features_of(encode_utf8(trips@[j].pickup_datetime@)),
                ),
        decreases trips@.len() - k,
    {
        let trip = &trips[k];
        let t = times[k];
        assert(t == pickup_features_of(encode_utf8(trips@[k as int].pickup_datetime@))) by {
            assert(stamps@[k as int]@ == trips@[k as int].pickup_datetime@);
        }
        out.push(
            TaxifareDatasetRawItem {
                fare_amount: trip.fare_amount,
                pickup_latitude: trip.pickup_latitude,
                pickup_longitude: trip.pickup_longitude,
                dropoff_latitude: trip.dropoff_latitude,
                dropoff_longitude: trip.dropoff_longitude,
                passenger_count: trip.passenger_count,
                distance: distances[k],
                pickup_hour: t.pickup_hour,
                pickup_weekday: t.pickup_weekday,
                am_or_pm: t.am_or_pm,
            },
        );
        k = k + 1;
    }
    Ok(out)
}

/// The model-ready item of an engineered record: categories in the order
/// weekday, hour, half of day; continuous values in the order pickup
/// latitude, pickup longitude, dropoff latitude, dropoff longitude, passenger
/// count, distance; the fare as label.
pub open spec fn mapped_item_of<F>(item: TaxifareDatasetRawItem<F>) -> TaxifareDatasetMappedItem<F> {
    TaxifareDatasetMappedItem {
        discrete_weekday: item.pickup_weekday,
        discrete_hour: item.pickup_hour,
        discrete_am_or_pm: item.am_or_pm,
        continuous_features: [
            item.pickup_latitude,
            item.pickup_longitude,
            item.dropoff_latitude,
            item.dropoff_longitude,
            item.passenger_count,
            item.distance,
        ],
        label: item.fare_amount,
    }
}

/// Turns engineered records into model-ready items.
#[derive(Debug, Clone, Copy)]
pub struct RawDatafieldToFeaturesMapper;

impl RawDatafieldToFeaturesMapper {
    pub fn map<F: Copy>(&self, item: &TaxifareDatasetRawItem<F>) -> (r: TaxifareDatasetMappedItem<F>)
        ensures
            r == mapped_item_of(*item),
    {
        TaxifareDatasetMappedItem {
            discrete_weekday: item.pickup_weekday,
            discrete_hour: item.pickup_hour,
            discrete_am_or_pm: item.am_or_pm,
            continuous_features: [
                item.pickup_latitude,
                item.pickup_longitude,
                item.dropoff_latitude,
                item.dropoff_longitude,
                item.passenger_count,
                item.distance,
            ],
            label: item.fare_amount,
        }
    }
}

} // verus!
