//! Taxi fare regression: feature engineering, a reproducible train/test split,
//! batch collation and the layer plan of an embedding + MLP regressor.
pub mod batcher;
pub mod dataset;
pub mod error;
pub mod features;
pub mod model;
pub mod records;
