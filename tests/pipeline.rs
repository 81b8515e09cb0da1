use linear_regression::batcher::TaxifareBatcher;
use linear_regression::dataset::{
    split_index, Partition, TaxifareDatasetBuilder, TaxifareRawDatasetBuilder,
};
use linear_regression::error::ConfigError;
use linear_regression::records::{TaxifareDatasetMappedItem, TaxifareDatasetRawItem};

fn record(i: usize) -> TaxifareDatasetRawItem<f64> {
    TaxifareDatasetRawItem {
        fare_amount: i as f64,
        pickup_latitude: 40.0 + i as f64,
        pickup_longitude: -74.0 - i as f64,
        dropoff_latitude: 41.0 + i as f64,
        dropoff_longitude: -73.0 - i as f64,
        passenger_count: (i % 6) as f64,
        distance: 0.5 * i as f64,
        pickup_hour: (i % 24) as u8,
        pickup_weekday: (i % 7) as u8,
        am_or_pm: ((i % 24) >= 12) as u8,
    }
}

fn records(n: usize) -> Vec<TaxifareDatasetRawItem<f64>> {
    (0..n).map(record).collect()
}

fn labels(items: &[TaxifareDatasetMappedItem<f64>]) -> Vec<usize> {
    items.iter().map(|m| m.label as usize).collect()
}

#[test]
fn split_index_is_floor_of_share() {
    assert_eq!(split_index(100, 75), 75);
    assert_eq!(split_index(10, 33), 3);
    assert_eq!(split_index(7, 50), 3);
    assert_eq!(split_index(0, 50), 0);
    assert_eq!(split_index(9, 0), 0);
    assert_eq!(split_index(9, 100), 9);
    assert_eq!(split_index(usize::MAX, 100), usize::MAX);
    assert_eq!(split_index(usize::MAX, 50), usize::MAX / 2);
}

#[test]
fn seeded_shuffle_is_a_reproducible_permutation() {
    let builder = TaxifareRawDatasetBuilder::new("prepared.csv", Some(42));
    let a = builder.init(records(50)).unwrap();
    let b = builder.init(records(50)).unwrap();
    let order_a: Vec<usize> = a.items().iter().map(|r| r.fare_amount as usize).collect();
    let order_b: Vec<usize> = b.items().iter().map(|r| r.fare_amount as usize).collect();
    assert_eq!(order_a, order_b);
    assert_ne!(order_a, (0..50).collect::<Vec<usize>>());
    let mut sorted = order_a.clone();
    sorted.sort();
    assert_eq!(sorted, (0..50).collect::<Vec<usize>>());
    assert_eq!(builder.file_name(), "prepared.csv");
    assert_eq!(builder.seed(), Some(42));
}

#[test]
fn unseeded_shuffle_is_a_permutation() {
    let builder = TaxifareRawDatasetBuilder::new("prepared.csv", None);
    let a = builder.init(records(30)).unwrap();
    let mut order: Vec<usize> = a.items().iter().map(|r| r.fare_amount as usize).collect();
    assert_ne!(order, (0..30).collect::<Vec<usize>>());
    order.sort();
    assert_eq!(order, (0..30).collect::<Vec<usize>>());
    assert_eq!(a.len(), 30);
    assert!(a.get(30).is_none());
}

#[test]
fn end_to_end_split_of_one_hundred_records() {
    let builder = TaxifareDatasetBuilder::new("prepared.csv", 75, Some(42));
    let dataset = builder.build(records(100)).unwrap();
    let train = builder.train(&dataset);
    let test = builder.test(&dataset);
    assert_eq!(train.len(), 75);
    assert_eq!(test.len(), 25);

    let again = builder.build(records(100)).unwrap();
    assert_eq!(labels(builder.train(&again).items()), labels(train.items()));
    assert_eq!(labels(builder.test(&again).items()), labels(test.items()));

    let mut all = labels(train.items());
    all.extend(labels(test.items()));
    let mut sorted = all.clone();
    sorted.sort();
    assert_eq!(sorted, (0..100).collect::<Vec<usize>>());
}

#[test]
fn partitions_are_prefix_and_suffix_of_one_shuffle() {
    let builder = TaxifareDatasetBuilder::new("prepared.csv", 30, None);
    let dataset = builder.build(records(10)).unwrap();
    let train = builder.train(&dataset);
    let test = builder.test(&dataset);
    assert_eq!(train.len(), 3);
    assert_eq!(test.len(), 7);
    let mut joined = labels(train.items());
    joined.extend(labels(test.items()));
    let mut sorted = joined.clone();
    sorted.sort();
    assert_eq!(sorted, (0..10).collect::<Vec<usize>>());
    assert_eq!(dataset.len(), 10);
}

#[test]
fn partitions_by_name() {
    let builder = TaxifareDatasetBuilder::new("prepared.csv", 75, Some(7));
    let dataset = builder.build(records(8)).unwrap();
    assert_eq!(labels(builder.init(&dataset, "train").unwrap().items()), labels(builder.train(&dataset).items()));
    assert_eq!(labels(builder.init(&dataset, "test").unwrap().items()), labels(builder.test(&dataset).items()));
    assert!(matches!(builder.init(&dataset, "validation"), Err(ConfigError::UnknownPartition)));
    assert_eq!(Partition::from_name("train"), Ok(Partition::Train));
    assert_eq!(Partition::from_name("test"), Ok(Partition::Test));
    assert_eq!(Partition::from_name("Train"), Err(ConfigError::UnknownPartition));
    assert_eq!(builder.train_test_split_percentage(), 75);
}

#[test]
fn empty_dataset_splits_into_empty_partitions() {
    let builder = TaxifareDatasetBuilder::new("prepared.csv", 75, Some(42));
    let dataset = builder.build(records(0)).unwrap();
    assert_eq!(builder.train(&dataset).len(), 0);
    assert_eq!(builder.test(&dataset).len(), 0);
}

#[test]
fn batch_keeps_item_order_and_shapes() {
    let builder = TaxifareDatasetBuilder::new("prepared.csv", 100, Some(3));
    let dataset = builder.build(records(5)).unwrap();
    let items = builder.train(&dataset).items().clone();
    let batch = TaxifareBatcher.batch(&items);
    assert_eq!(batch.batch_size(), 5);
    assert_eq!(batch.cont_shape(), [5, 6, 1]);
    assert_eq!(batch.column_shape(), [5, 1]);
    assert_eq!(batch.cont_features().len(), 30);
    assert_eq!(batch.cat_features().len(), 3);
    for (j, item) in items.iter().enumerate() {
        for i in 0..6 {
            assert_eq!(batch.cont_features()[j * 6 + i], item.continuous_features[i]);
        }
        assert_eq!(batch.cat_features()[0][j], item.discrete_weekday);
        assert_eq!(batch.cat_features()[1][j], item.discrete_hour);
        assert_eq!(batch.cat_features()[2][j], item.discrete_am_or_pm);
        assert_eq!(batch.predictions()[j], item.label);
    }
}

#[test]
fn batch_of_fixed_items() {
    let items = vec![
        TaxifareDatasetMappedItem {
            discrete_weekday: 6,
            discrete_hour: 23,
            discrete_am_or_pm: 1,
            continuous_features: [1.0, 2.0, 3.0, 4.0, 5.0, 6.0],
            label: 10.0,
        },
        TaxifareDatasetMappedItem {
            discrete_weekday: 0,
            discrete_hour: 1,
            discrete_am_or_pm: 0,
            continuous_features: [7.0, 8.0, 9.0, 10.0, 11.0, 12.0],
            label: 20.0,
        },
    ];
    let batch = TaxifareBatcher.batch(&items);
    assert_eq!(
        batch.cont_features(),
        &vec![1.0, 2.0, 3.0, 4.0, 5.0, 6.0, 7.0, 8.0, 9.0, 10.0, 11.0, 12.0]
    );
    assert_eq!(batch.cat_features(), &vec![vec![6, 0], vec![23, 1], vec![1, 0]]);
    assert_eq!(batch.predictions(), &vec![10.0, 20.0]);
    let empty = TaxifareBatcher.batch::<f64>(&vec![]);
    assert_eq!(empty.cont_shape(), [0, 6, 1]);
    assert_eq!(empty.cat_features(), &vec![Vec::<u8>::new(), vec![], vec![]]);
}

#[test]
fn categories_fit_their_tables() {
    let builder = TaxifareDatasetBuilder::new("prepared.csv", 100, Some(1));
    let dataset = builder.build(records(48)).unwrap();
    let batch = TaxifareBatcher.batch(dataset.items());
    assert!(batch.categories_fit(&vec![(7, 3), (24, 12), (2, 1)]));
    assert!(!batch.categories_fit(&vec![(6, 3), (24, 12), (2, 1)]));
    assert!(!batch.categories_fit(&vec![(7, 3), (23, 11), (2, 1)]));
    assert!(!batch.categories_fit(&vec![(7, 3), (24, 12), (1, 0)]));
    assert!(!batch.categories_fit(&vec![(7, 3), (24, 12)]));
    let empty = TaxifareBatcher.batch::<f64>(&vec![]);
    assert!(empty.categories_fit(&vec![(0, 0), (0, 0), (0, 0)]));
}
