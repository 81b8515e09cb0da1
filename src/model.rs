//! Layer plan of the regression model: embedding specifications, hidden
//! blocks and the final output layer.
use vstd::prelude::*;

use crate::error::ConfigError;
use itertools::Itertools;

verus! {

/// Largest embedding width given to any categorical field.
pub const MAX_EMBEDDING_DIM: usize = 50;

/// Dropout probabilities are counted in thousandths.
pub const DROPOUT_SCALE: u16 = 1000;

/// The embedding width used for a field with `cardinality` categories.
pub open spec fn embedding_dim_of(cardinality: nat) -> nat {
    if cardinality / 2 < MAX_EMBEDDING_DIM as nat {
        cardinality / 2
    } else {
        MAX_EMBEDDING_DIM as nat
    }
}

/// Embedding width for a categorical field: half its cardinality, at most 50.
pub fn embedding_dim(cardinality: usize) -> (r: usize)
    ensures
        r == embedding_dim_of(cardinality as nat),
        cardinality >= 2 ==> r >= 1,
        r <= MAX_EMBEDDING_DIM,
{
    let half = cardinality / 2;
    if half < MAX_EMBEDDING_DIM {
        half
    } else {
        MAX_EMBEDDING_DIM
    }
}

/// Relies on itertools' `unique`: every distinct value is produced once, so
/// the count is the number of distinct values.
#[verifier::external_body]
fn distinct_count(values: &Vec<u8>) -> (r: usize)
    ensures
        r == values@.to_set().len(),
{
    values.iter().unique().count()
}

/// (cardinality, embedding width) of each categorical column, in column
/// order; the cardinality is the number of distinct indices in the column.
pub fn embedding_sizes(columns: &Vec<Vec<u8>>) -> (r: Vec<(usize, usize)>)
    ensures
        r@.len() == columns@.len(),
        forall|f: int|
            0 <= f < columns@.len() ==> {
                &&& #[trigger] r@[f].0 == columns@[f]@.to_set().len()
                &&& r@[f].1 == embedding_dim_of(columns@[f]@.to_set().len())
            },
{
    let mut sizes: Vec<(usize, usize)> = Vec::new();
    let mut f: usize = 0;
    while f < columns.len()
        invariant
            f <= columns@.len(),
            sizes@.len() == f,
            forall|g: int|
                0 <= g < f ==> {
                    &&& #[trigger] sizes@[g].0 == columns@[g]@.to_set().len()
                    &&& sizes@[g].1 == embedding_dim_of(columns@[g]@.to_set().len())
                },
        decreases columns@.len() - f,
    {
        let cardinality = distinct_count(&columns[f]);
        sizes.push((cardinality, embedding_dim(cardinality)));
        f = f + 1;
    }
    sizes
}

/// A dropout probability, in thousandths (`400` is a probability of 0.4).
#[derive(Debug, Clone, Copy, PartialEq, Eq, Structural)]
pub struct DropoutRate {
    per_mille: u16,
}

impl DropoutRate {
    pub closed spec fn spec_per_mille(self) -> nat {
        self.per_mille as nat
    }

    #[verifier::type_invariant]
    closed spec fn inv(self) -> bool {
        self.per_mille <= DROPOUT_SCALE
    }

    /// The rate `per_mille / 1000`; a rate above one is refused.
    pub fn new(per_mille: u16) -> (r: Result<DropoutRate, ConfigError>)
        ensures
            per_mille <= DROPOUT_SCALE <==> r is Ok,
            r matches Ok(d) ==> d.spec_per_mille() == per_mille,
            r matches Err(e) ==> e == ConfigError::DropoutOutOfRange,
    {
        if per_mille <= DROPOUT_SCALE {
            Ok(DropoutRate { per_mille })
        } else {
            Err(ConfigError::DropoutOutOfRange)
        }
    }

    pub fn per_mille(&self) -> (r: u16)
        ensures
            r == self.spec_per_mille(),
            r <= DROPOUT_SCALE,
    {
        proof {
            use_type_invariant(self);
        }
        self.per_mille
    }
}

/// Embedding tables (cardinality, width) of the categorical fields, in field
/// order, and the dropout applied to their concatenated output.
#[derive(Debug, Clone)]
pub struct TaxifareEmbeddingLayerConfig {
    embedding_sizes: Vec<(usize, usize)>,
    dropout: DropoutRate,
}

impl TaxifareEmbeddingLayerConfig {
    pub closed spec fn spec_embedding_sizes(&self) -> Seq<(usize, usize)> {
        self.embedding_sizes@
    }

    pub closed spec fn spec_dropout(&self) -> DropoutRate {
        self.dropout
    }

    pub fn new(embedding_sizes: Vec<(usize, usize)>, dropout_rate: DropoutRate) -> (r: Self)
        ensures
            r.spec_embedding_sizes() == embedding_sizes@,
            r.spec_dropout() == dropout_rate,
    {
        TaxifareEmbeddingLayerConfig { embedding_sizes, dropout: dropout_rate }
    }

    pub fn embedding_sizes(&self) -> (r: &Vec<(usize, usize)>)
        ensures
            r@ == self.spec_embedding_sizes(),
    {
        &self.embedding_sizes
    }

    pub fn dropout(&self) -> (r: DropoutRate)
        ensures
            r == self.spec_dropout(),
    {
        self.dropout
    }
}

impl Default for TaxifareEmbeddingLayerConfig {
    /// No embedded field, dropout probability one half.
    fn default() -> (r: Self)
        ensures
            r.spec_embedding_sizes().len() == 0,
            r.spec_dropout().spec_per_mille() == 500,
    {
        TaxifareEmbeddingLayerConfig { embedding_sizes: Vec::new(), dropout: DropoutRate { per_mille: 500 } }
    }
}

/// One hidden block: a linear map from `inputs` to `outputs` features, then
/// activation, batch normalization over `outputs` channels and dropout.
#[derive(Debug, Clone, Copy, PartialEq, Eq, Structural)]
pub struct TaxifareLinearLayerConfig {
    inputs: usize,
    outputs: usize,
    dropout: DropoutRate,
}

impl TaxifareLinearLayerConfig {
    pub closed spec fn spec_inputs(self) -> nat {
        self.inputs as nat
    }

    pub closed spec fn spec_outputs(self) -> nat {
        self.outputs as nat
    }

    pub closed spec fn spec_dropout(self) -> DropoutRate {
        self.dropout
    }

    /// Both widths must be positive: a block of width zero is refused.
    pub fn new(inputs: usize, outputs: usize, dropout_rate: DropoutRate) -> (r: Result<
        Self,
        ConfigError,
    >)
        ensures
            (inputs > 0 && outputs > 0) <==> r is Ok,
            r matches Ok(l) ==> l.spec_inputs() == inputs && l.spec_outputs() == outputs
                && l.spec_dropout() == dropout_rate,
            r matches Err(e) ==> e == ConfigError::ZeroWidth,
    {
        if inputs == 0 || outputs == 0 {
            Err(ConfigError::ZeroWidth)
        } else {
            Ok(TaxifareLinearLayerConfig { inputs, outputs, dropout: dropout_rate })
        }
    }

    pub fn inputs(&self) -> (r: usize)
        ensures
            r == self.spec_inputs(),
    {
        self.inputs
    }

    pub fn outputs(&self) -> (r: usize)
        ensures
            r == self.spec_outputs(),
    {
        self.outputs
    }

    pub fn dropout(&self) -> (r: DropoutRate)
        ensures
            r == self.spec_dropout(),
    {
        self.dropout
    }
}

/// Sum of the embedding widths (second components).
pub open spec fn total_embedding_width(sizes: Seq<(usize, usize)>) -> nat
    decreases sizes.len(),
{
    if sizes.len() == 0 {
        0
    } else {
        total_embedding_width(sizes.drop_last()) + sizes.last().1 as nat
    }
}

/// Width of the first hidden block's input: the continuous features beside
/// the concatenated embeddings.
pub open spec fn model_input_width(sizes: Seq<(usize, usize)>, n_cont: nat) -> nat {
    n_cont + total_embedding_width(sizes)
}

/// The widths a feature vector takes on its way through the hidden blocks.
pub open spec fn hidden_widths(sizes: Seq<(usize, usize)>, n_cont: nat, layers: Seq<usize>) -> Seq<
    nat,
> {
    seq![model_input_width(sizes, n_cont)] + layers.map_values(|w: usize| w as nat)
}

/// Whether `ModelConfig::new` accepts these arguments.
pub open spec fn model_spec_is_valid(
    sizes: Seq<(usize, usize)>,
    n_cont: nat,
    layers: Seq<usize>,
) -> bool {
    &&& layers.len() > 0
    &&& n_cont > 0
    &&& forall|i: int| 0 <= i < layers.len() ==> layers[i] > 0
    &&& model_input_width(sizes, n_cont) <= usize::MAX
}

/// Relies on itertools' `tuple_windows`: each pair of neighbouring items, in
/// order.
#[verifier::external_body]
fn neighbour_pairs(widths: &Vec<usize>) -> (r: Vec<(usize, usize)>)
    ensures
        r@.len() == if widths@.len() == 0 {
            0
        } else {
            widths@.len() - 1
        },
        forall|i: int| 0 <= i < r@.len() ==> r@[i] == (widths@[i], widths@[i + 1]),
{
    widths.iter().copied().tuple_windows().collect()
}

/// The whole layer plan: embeddings, normalization of the continuous input,
/// hidden blocks and a final linear layer down to one output.
#[derive(Debug, Clone)]
pub struct ModelConfig {
    embedding_config: TaxifareEmbeddingLayerConfig,
    linear_layers_config: Vec<TaxifareLinearLayerConfig>,
    output_layer_inputs: usize,
    output_layer_outputs: usize,
    cont_norm_layer_config: usize,
}

impl ModelConfig {
    pub closed spec fn spec_embedding(&self) -> TaxifareEmbeddingLayerConfig {
        self.embedding_config
    }

    pub closed spec fn spec_linear_layers(&self) -> Seq<TaxifareLinearLayerConfig> {
        self.linear_layers_config@
    }

    /// (inputs, outputs) of the final linear layer.
    pub closed spec fn spec_output_layer(&self) -> (nat, nat) {
        (self.output_layer_inputs as nat, self.output_layer_outputs as nat)
    }

    /// Channels of the batch normalization applied to the continuous input.
    pub closed spec fn spec_cont_norm(&self) -> nat {
        self.cont_norm_layer_config as nat
    }

    /// The blocks chain: each one reads what the one before it wrote, the
    /// first reads the continuous features beside the embeddings, and the
    /// output layer maps the last block's features to a single value.
    pub open spec fn wf(&self) -> bool {
        let layers = self.spec_linear_layers();
        &&& layers.len() > 0
        &&& layers[0].spec_inputs() == model_input_width(
            self.spec_embedding().spec_embedding_sizes(),
            self.spec_cont_norm(),
        )
        &&& forall|i: int|
            0 <= i < layers.len() - 1 ==> #[trigger] layers[i].spec_outputs() == layers[i
                + 1].spec_inputs()
        &&& self.spec_output_layer() == (layers.last().spec_outputs(), 1nat)
    }

    /// Builds the plan for embeddings of the given (cardinality, width) sizes,
    /// `n_cont` continuous features and hidden blocks of widths `layers`, all
    /// with the same dropout.
    pub fn new(
        embedding_sizes: Vec<(usize, usize)>,
        n_cont: usize,
        layers: &[usize],
        dropout_rate: DropoutRate,
    ) -> (r: Result<Self, ConfigError>)
        ensures
            r is Ok <==> model_spec_is_valid(embedding_sizes@, n_cont as nat, layers@),
            layers@.len() == 0 ==> r == Err::<Self, ConfigError>(
                ConfigError::MissingHiddenLayers),
            layers@.len() > 0 && (n_cont == 0 || exists|i: int|
                0 <= i < layers@.len() && layers@[i] == 0) ==> r == Err::<Self, ConfigError>(
                ConfigError::ZeroWidth),
            layers@.len() > 0 && n_cont > 0 && (forall|i: int|
                0 <= i < layers@.len() ==> layers@[i] > 0) && model_input_width(
                embedding_sizes@,
                n_cont as nat,
            ) > usize::MAX ==> r == Err::<Self, ConfigError>(ConfigError::WidthOverflow),
            r matches Ok(c) ==> {
                let widths = hidden_widths(embedding_sizes@, n_cont as nat, layers@);
                &&& c.wf()
                &&& c.spec_embedding().spec_embedding_sizes() == embedding_sizes@
                &&& c.spec_embedding().spec_dropout() == dropout_rate
                &&& c.spec_cont_norm() == n_cont
                &&& c.spec_linear_layers().len() == layers@.len()
                &&& forall|i: int|
                    0 <= i < layers@.len() ==> {
                        &&& #[trigger] c.spec_linear_layers()[i].spec_inputs() == widths[i]
                        &&& c.spec_linear_layers()[i].spec_outputs() == widths[i + 1]
                        &&& c.spec_linear_layers()[i].spec_dropout() == dropout_rate
                    }
                &&& c.spec_output_layer() == (layers@.last() as nat, 1nat)
            },
    {
        if layers.len() == 0 {
            return Err(ConfigError::MissingHiddenLayers);
        }
        if n_cont == 0 {
            return Err(ConfigError::ZeroWidth);
        }
        let mut k: usize = 0;
        while k < layers.len()
            invariant
                0 <= k <= layers@.len(),
                forall|i: int| 0 <= i < k ==> layers@[i] > 0,
            decreases layers@.len() - k,
        {
            if layers[k] == 0 {
                return Err(ConfigError::ZeroWidth);
            }
            k = k + 1;
        }
        // Width of the first block's input, refused when it overflows.
        let mut input_width: usize = n_cont;
        let mut j: usize = 0;
        while j < embedding_sizes.len()
            invariant
                0 <= j <= embedding_sizes@.len(),
                layers@.len() > 0,
                n_cont > 0,
                forall|i: int| 0 <= i < layers@.len() ==> layers@[i] > 0,
                input_width == n_cont + total_embedding_width(embedding_sizes@.subrange(0, j as int)),
            decreases embedding_sizes@.len() - j,
        {
            proof {
                let s = embedding_sizes@.subrange(0, j as int + 1);
                assert(s.drop_last() == embedding_sizes@.subrange(0, j as int));
                lemma_total_embedding_width_prefix_monotone(embedding_sizes@, j as int + 1);
            }
            let w = embedding_sizes[j].1;
            if input_width > usize::MAX - w {
                proof {
                    lemma_total_embedding_width_prefix_monotone(embedding_sizes@, embedding_sizes@.len() as int);
                    assert(embedding_sizes@.subrange(0, embedding_sizes@.len() as int) == embedding_sizes@);
                }
                return Err(ConfigError::WidthOverflow);
            }
            input_width = input_width + w;
            j = j + 1;
        }
        assert(embedding_sizes@.subrange(0, embedding_sizes@.len() as int) == embedding_sizes@);
        let mut widths: Vec<usize> = Vec::new();
        widths.push(input_width);
        let mut m: usize = 0;
        while m < layers.len()
            invariant
                0 <= m <= layers@.len(),
                input_width == model_input_width(embedding_sizes@, n_cont as nat),
                widths@.len() == m + 1,
                forall|i: int|
                    0 <= i <= m ==> widths@[i] == hidden_widths(
                        embedding_sizes@,
                        n_cont as nat,
                        layers@,
                    )[i],
            decreases layers@.len() - m,
        {
            widths.push(layers[m]);
            m = m + 1;
        }
        let pairs = neighbour_pairs(&widths);
        let mut linear_layers_config: Vec<TaxifareLinearLayerConfig> = Vec::new();
        let mut p: usize = 0;
        while p < pairs.len()
            invariant
                0 <= p <= pairs@.len(),
                pairs@.len() == layers@.len(),
                widths@.len() == layers@.len() + 1,
                forall|i: int|
                    0 <= i < widths@.len() ==> widths@[i] == hidden_widths(
                        embedding_sizes@,
                        n_cont as nat,
                        layers@,
                    )[i],
                linear_layers_config@.len() == p,
                forall|i: int| 0 <= i < pairs@.len() ==> pairs@[i] == (widths@[i], widths@[i + 1]),
                forall|i: int| 0 <= i < widths@.len() ==> widths@[i] > 0,
                forall|i: int|
                    0 <= i < p ==> {
                        &&& #[trigger] linear_layers_config@[i].spec_inputs() == widths@[i]
                        &&& linear_layers_config@[i].spec_outputs() == widths@[i + 1]
                        &&& linear_layers_config@[i].spec_dropout() == dropout_rate
                    },
            decreases pairs@.len() - p,
        {
            let (inputs, outputs) = pairs[p];
            linear_layers_config.push(TaxifareLinearLayerConfig { inputs, outputs, dropout: dropout_rate });
            p = p + 1;
        }
        let last = layers[layers.len() - 1];
        let ghost ls = linear_layers_config@;
        assert forall|i: int| 0 <= i < ls.len() - 1 implies #[trigger] ls[i].spec_outputs()
            == ls[i + 1].spec_inputs() by {
            assert(ls[i].spec_inputs() == widths@[i]);
            assert(ls[i + 1].spec_inputs() == widths@[i + 1]);
        }
        assert(ls[0].spec_inputs() == widths@[0]);
        assert(ls[ls.len() - 1].spec_inputs() == widths@[ls.len() - 1]);
        let c = ModelConfig {
            embedding_config: TaxifareEmbeddingLayerConfig::new(embedding_sizes, dropout_rate),
            linear_layers_config,
            output_layer_inputs: last,
            output_layer_outputs: 1,
            cont_norm_layer_config: n_cont,
        };
        Ok(c)
    }

    pub fn embedding_config(&self) -> (r: &TaxifareEmbeddingLayerConfig)
        ensures
            *r == self.spec_embedding(),
    {
        &self.embedding_config
    }

    pub fn linear_layers_config(&self) -> (r: &Vec<TaxifareLinearLayerConfig>)
        ensures
            r@ == self.spec_linear_layers(),
    {
        &self.linear_layers_config
    }

    pub fn output_layer_config(&self) -> (r: (usize, usize))
        ensures
            r.0 == self.spec_output_layer().0,
            r.1 == self.spec_output_layer().1,
    {
        (self.output_layer_inputs, self.output_layer_outputs)
    }

    pub fn cont_norm_layer_config(&self) -> (r: usize)
        ensures
            r == self.spec_cont_norm(),
    {
        self.cont_norm_layer_config
    }
}

/// The embedding widths of a prefix never exceed those of the whole list.
proof fn lemma_total_embedding_width_prefix_monotone(sizes: Seq<(usize, usize)>, j: int)
    requires
        0 <= j <= sizes.len(),
    ensures
        total_embedding_width(sizes.subrange(0, j)) <= total_embedding_width(sizes),
    decreases sizes.len(),
{
    if j < sizes.len() {
        assert(sizes.drop_last() == sizes.subrange(0, sizes.len() - 1));
        assert(sizes.subrange(0, j) == sizes.drop_last().subrange(0, j));
        lemma_total_embedding_width_prefix_monotone(sizes.drop_last(), j);
    } else {
        assert(sizes.subrange(0, j) == sizes);
    }
}

} // verus!
