use linear_regression::error::ConfigError;
use linear_regression::model::{
    embedding_dim, embedding_sizes, DropoutRate, ModelConfig, TaxifareEmbeddingLayerConfig,
    TaxifareLinearLayerConfig,
};

#[test]
fn embedding_dim_is_half_cardinality_capped() {
    assert_eq!(embedding_dim(7), 3);
    assert_eq!(embedding_dim(24), 12);
    assert_eq!(embedding_dim(2), 1);
    assert_eq!(embedding_dim(150), 50);
    assert_eq!(embedding_dim(101), 50);
    assert_eq!(embedding_dim(99), 49);
    assert_eq!(embedding_dim(1), 0);
    assert_eq!(embedding_dim(0), 0);
    assert_eq!(embedding_dim(usize::MAX), 50);
}

#[test]
fn embedding_sizes_count_distinct_categories() {
    let weekday = vec![0, 1, 2, 3, 4, 5, 6, 6, 0];
    let hour: Vec<u8> = (0..48).map(|h| (h % 24) as u8).collect();
    let half = vec![0, 1, 1, 0];
    let sizes = embedding_sizes(&vec![weekday, hour, half]);
    assert_eq!(sizes, vec![(7, 3), (24, 12), (2, 1)]);
    assert_eq!(embedding_sizes(&vec![vec![]]), vec![(0, 0)]);
}

#[test]
fn dropout_rate_bounds() {
    assert_eq!(DropoutRate::new(400).unwrap().per_mille(), 400);
    assert_eq!(DropoutRate::new(1000).unwrap().per_mille(), 1000);
    assert_eq!(DropoutRate::new(0).unwrap().per_mille(), 0);
    assert_eq!(DropoutRate::new(1001), Err(ConfigError::DropoutOutOfRange));
}

#[test]
fn linear_layer_needs_both_widths() {
    let d = DropoutRate::new(400).unwrap();
    let l = TaxifareLinearLayerConfig::new(22, 100, d).unwrap();
    assert_eq!((l.inputs(), l.outputs(), l.dropout()), (22, 100, d));
    assert_eq!(TaxifareLinearLayerConfig::new(0, 100, d), Err(ConfigError::ZeroWidth));
    assert_eq!(TaxifareLinearLayerConfig::new(22, 0, d), Err(ConfigError::ZeroWidth));
}

#[test]
fn embedding_layer_keeps_sizes_and_dropout() {
    let d = DropoutRate::new(250).unwrap();
    let c = TaxifareEmbeddingLayerConfig::new(vec![(7, 3), (2, 1)], d);
    assert_eq!(c.embedding_sizes(), &vec![(7, 3), (2, 1)]);
    assert_eq!(c.dropout(), d);
}

#[test]
fn embedding_layer_default() {
    let c = TaxifareEmbeddingLayerConfig::default();
    assert!(c.embedding_sizes().is_empty());
    assert_eq!(c.dropout().per_mille(), 500);
}

#[test]
fn model_config_chains_layers() {
    let d = DropoutRate::new(400).unwrap();
    let c = ModelConfig::new(vec![(7, 3), (24, 12), (2, 1)], 6, &[100, 50], d).unwrap();
    let layers: Vec<(usize, usize)> =
        c.linear_layers_config().iter().map(|l| (l.inputs(), l.outputs())).collect();
    assert_eq!(layers, vec![(22, 100), (100, 50)]);
    assert!(c.linear_layers_config().iter().all(|l| l.dropout() == d));
    assert_eq!(c.output_layer_config(), (50, 1));
    assert_eq!(c.cont_norm_layer_config(), 6);
    assert_eq!(c.embedding_config().embedding_sizes(), &vec![(7, 3), (24, 12), (2, 1)]);
    assert_eq!(c.embedding_config().dropout(), d);
}

#[test]
fn model_config_single_layer_without_embeddings() {
    let d = DropoutRate::new(0).unwrap();
    let c = ModelConfig::new(vec![], 6, &[8], d).unwrap();
    assert_eq!(c.linear_layers_config().len(), 1);
    assert_eq!(c.linear_layers_config()[0].inputs(), 6);
    assert_eq!(c.linear_layers_config()[0].outputs(), 8);
    assert_eq!(c.output_layer_config(), (8, 1));
}

#[test]
fn model_config_refuses_incomplete_plans() {
    let d = DropoutRate::new(400).unwrap();
    assert!(matches!(
        ModelConfig::new(vec![(7, 3)], 6, &[], d),
        Err(ConfigError::MissingHiddenLayers)
    ));
    assert!(matches!(ModelConfig::new(vec![(7, 3)], 0, &[10], d), Err(ConfigError::ZeroWidth)));
    assert!(matches!(
        ModelConfig::new(vec![(7, 3)], 6, &[10, 0, 5], d),
        Err(ConfigError::ZeroWidth)
    ));
    assert!(matches!(
        ModelConfig::new(vec![(7, usize::MAX)], 6, &[10], d),
        Err(ConfigError::WidthOverflow)
    ));
}
