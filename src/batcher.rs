//! Collation: a list of model-ready items becomes one batch of aligned,
//! flat, row-major arrays with their shapes, in item order.
use vstd::prelude::*;

use crate::records::{TaxifareDatasetMappedItem, NUM_CATEGORICAL, NUM_CONTINUOUS};

verus! {

/// Groups items into batches.
#[derive(Debug, Clone, Copy, Default)]
pub struct TaxifareBatcher;

/// The arrays of one batch of `batch_size` items: continuous features of
/// shape (batch_size, 6, 1), one category array of shape (batch_size, 1) per
/// categorical field (weekday, hour, half of day) and labels of shape
/// (batch_size, 1). Element `j` of each belongs to item `j`.
#[derive(Debug, Clone)]
pub struct TaxifareBatch<F> {
    batch_size: usize,
    cont_features: Vec<F>,
    cat_features: Vec<Vec<u8>>,
    predictions: Vec<F>,
}

impl<F> TaxifareBatch<F> {
    pub closed spec fn spec_batch_size(&self) -> nat {
        self.batch_size as nat
    }

    /// Continuous features, row-major: value `i` of item `j` at `j * 6 + i`.
    pub closed spec fn spec_cont_features(&self) -> Seq<F> {
        self.cont_features@
    }

    /// One array of category indices per categorical field.
    pub closed spec fn spec_cat_features(&self) -> Seq<Seq<u8>> {
        self.cat_features@.map_values(|v: Vec<u8>| v@)
    }

    pub closed spec fn spec_predictions(&self) -> Seq<F> {
        self.predictions@
    }

    /// All arrays have `batch_size` rows.
    pub open spec fn wf(&self) -> bool {
        let n = self.spec_batch_size();
        &&& self.spec_cont_features().len() == n * NUM_CONTINUOUS
        &&& self.spec_cat_features().len() == NUM_CATEGORICAL
        &&& forall|f: int| 0 <= f < NUM_CATEGORICAL ==> #[trigger] self.spec_cat_features()[f].len() == n
        &&& self.spec_predictions().len() == n
    }

    pub fn batch_size(&self) -> (r: usize)
        ensures
            r == self.spec_batch_size(),
    {
        self.batch_size
    }

    pub fn cont_features(&self) -> (r: &Vec<F>)
        ensures
            r@ == self.spec_cont_features(),
    {
        &self.cont_features
    }

    pub fn cat_features(&self) -> (r: &Vec<Vec<u8>>)
        ensures
            r@.len() == self.spec_cat_features().len(),
            forall|f: int| 0 <= f < r@.len() ==> #[trigger] r@[f]@ == self.spec_cat_features()[f],
    {
        &self.cat_features
    }

    pub fn predictions(&self) -> (r: &Vec<F>)
        ensures
            r@ == self.spec_predictions(),
    {
        &self.predictions
    }

    /// Whether every category index is below the cardinality (first
    /// component) that `sizes` gives its field, one size per field.
    pub fn categories_fit(&self, sizes: &Vec<(usize, usize)>) -> (r: bool)
        requires
            self.wf(),
        ensures
            r <==> (sizes@.len() == NUM_CATEGORICAL && forall|f: int, j: int|
                0 <= f < NUM_CATEGORICAL && 0 <= j < self.spec_batch_size() ==> (
                #[trigger] self.spec_cat_features()[f][j]) < sizes@[f].0),
    {
        if sizes.len() != NUM_CATEGORICAL {
            return false;
        }
        let mut f: usize = 0;
        while f < NUM_CATEGORICAL
            invariant
                f <= NUM_CATEGORICAL,
                self.wf(),
                sizes@.len() == NUM_CATEGORICAL,
                forall|g: int, j: int|
                    0 <= g < f && 0 <= j < self.spec_batch_size() ==> (
                    #[trigger] self.spec_cat_features()[g][j]) < sizes@[g].0,
            decreases NUM_CATEGORICAL - f,
        {
            let column = &self.cat_features[f];
            let limit = sizes[f].0;
            assert(column@ == self.spec_cat_features()[f as int]);
            let mut j: usize = 0;
            while j < column.len()
                invariant
                    j <= column@.len(),
                    f < NUM_CATEGORICAL,
                    self.wf(),
                    sizes@.len() == NUM_CATEGORICAL,
                    limit == sizes@[f as int].0,
                    column@ == self.spec_cat_features()[f as int],
                    forall|k: int| 0 <= k < j ==> (#[trigger] column@[k]) < limit,
                decreases column@.len() - j,
            {
                if column[j] as usize >= limit {
                    return false;
                }
                j = j + 1;
            }
            f = f + 1;
        }
        true
    }

    /// Shape of the continuous features: (batch_size, 6, 1).
    pub fn cont_shape(&self) -> (r: [usize; 3])
        ensures
            r@ == seq![self.spec_batch_size() as usize, NUM_CONTINUOUS, 1usize],
    {
        [self.batch_size, NUM_CONTINUOUS, 1]
    }

    /// Shape of each category array and of the labels: (batch_size, 1).
    pub fn column_shape(&self) -> (r: [usize; 2])
        ensures
            r@ == seq![self.spec_batch_size() as usize, 1usize],
    {
        [self.batch_size, 1]
    }
}

/// Position `j * 6 + i` lies in the first `n * 6` positions.
proof fn lemma_row_major_index(j: int, i: int, n: int)
    requires
        0 <= j < n,
        0 <= i < 6,
    ensures
        0 <= j * 6 + i < n * 6,
        j * 6 + i < (j + 1) * 6,
{
    assert(j * 6 + i < n * 6) by (nonlinear_arith)
        requires
            0 <= j < n,
            0 <= i < 6,
    ;
    assert(0 <= j * 6) by (nonlinear_arith)
        requires
            0 <= j,
    ;
}

impl TaxifareBatcher {
    /// Collates `items` into one batch without reordering them.
    pub fn batch<F: Copy>(&self, items: &Vec<TaxifareDatasetMappedItem<F>>) -> (r: TaxifareBatch<F>)
        requires
            items@.len() * NUM_CONTINUOUS <= usize::MAX,
        ensures
            r.wf(),
            r.spec_batch_size() == items@.len(),
            forall|j: int, i: int|
                0 <= j < items@.len() && 0 <= i < NUM_CONTINUOUS ==> r.spec_cont_features()[j
                    * NUM_CONTINUOUS + i] == #[trigger] items@[j].continuous_features@[i],
            forall|j: int|
                0 <= j < items@.len() ==> {
                    &&& r.spec_cat_features()[0][j] == #[trigger] items@[j].discrete_weekday
                    &&& r.spec_cat_features()[1][j] == items@[j].discrete_hour
                    &&& r.spec_cat_features()[2][j] == items@[j].discrete_am_or_pm
                    &&& r.spec_predictions()[j] == items@[j].label
                },
    {
        let n = items.len();
        let mut cont: Vec<F> = Vec::new();
        let mut weekday: Vec<u8> = Vec::new();
        let mut hour: Vec<u8> = Vec::new();
        let mut am_or_pm: Vec<u8> = Vec::new();
        let mut labels: Vec<F> = Vec::new();
        let mut j: usize = 0;
        while j < n
            invariant
                j <= n,
                n == items@.len(),
                n * 6 <= usize::MAX,
                cont@.len() == j * 6,
                weekday@.len() == j,
                hour@.len() == j,
                am_or_pm@.len() == j,
                labels@.len() == j,
                forall|jj: int, ii: int|
                    0 <= jj < j && 0 <= ii < 6 ==> cont@[jj * 6 + ii]
                        == #[trigger] items@[jj].continuous_features@[ii],
                forall|jj: int|
                    0 <= jj < j ==> {
                        &&& weekday@[jj] == #[trigger] items@[jj].discrete_weekday
                        &&& hour@[jj] == items@[jj].discrete_hour
                        &&& am_or_pm@[jj] == items@[jj].discrete_am_or_pm
                        &&& labels@[jj] == items@[jj].label
                    },
            decreases n - j,
        {
            let item = &items[j];
            let ghost before = cont@;
            let mut i: usize = 0;
            while i < NUM_CONTINUOUS
                invariant
                    i <= 6,
                    j < n,
                    n == items@.len(),
                    *item == items@[j as int],
                    cont@.len() == j * 6 + i,
                    cont@.subrange(0, j * 6) == before.subrange(0, j * 6),
                    before.len() == j * 6,
                    forall|ii: int| 0 <= ii < i ==> cont@[j * 6 + ii] == #[trigger] item.continuous_features@[ii],
                decreases 6 - i,
            {
                assert(j * 6 + i < n * 6) by (nonlinear_arith)
                    requires
                        j < n,
                        i < 6,
                ;
                cont.push(item.continuous_features[i]);
                i = i + 1;
                assert(cont@.subrange(0, j * 6) == before.subrange(0, j * 6));
            }
            weekday.push(item.discrete_weekday);
            hour.push(item.discrete_hour);
            am_or_pm.push(item.discrete_am_or_pm);
            labels.push(item.label);
            proof {
                assert forall|jj: int, ii: int|
                    0 <= jj < j + 1 && 0 <= ii < 6 implies cont@[jj * 6 + ii]
                        == #[trigger] items@[jj].continuous_features@[ii] by {
                    lemma_row_major_index(jj, ii, j + 1);
                    if jj < j {
                        lemma_row_major_index(jj, ii, j as int);
                        assert(cont@[jj * 6 + ii] == cont@.subrange(0, j * 6)[jj * 6 + ii]);
                        assert(before[jj * 6 + ii] == before.subrange(0, j * 6)[jj * 6 + ii]);
                    }
                }
            }
            j = j + 1;
        }
        let mut cat_features: Vec<Vec<u8>> = Vec::new();
        cat_features.push(weekday);
        cat_features.push(hour);
        cat_features.push(am_or_pm);
        let r = TaxifareBatch { batch_size: n, cont_features: cont, cat_features, predictions: labels };
        assert(r.spec_cat_features()[0] == weekday@);
        assert(r.spec_cat_features()[1] == hour@);
        assert(r.spec_cat_features()[2] == am_or_pm@);
        r
    }
}

} // verus!
