//! The dataset pipeline: records are shuffled once, with a seed when one is
//! given, mapped to model-ready items, and split by a percentage into a train
//! prefix and a test suffix of the same shuffled sequence.
use vstd::prelude::*;
use vstd::arithmetic::div_mod::lemma_hoist_over_denominator;

use crate::error::{ConfigError, DataError};
use crate::records::{
    mapped_item_of, RawDatafieldToFeaturesMapper, TaxifareDatasetMappedItem,
    TaxifareDatasetRawItem,
};
use burn::data::dataset::transform::ShuffledDataset;
use burn::data::dataset::{Dataset, InMemDataset};
use rand::rngs::StdRng;
use rand::SeedableRng;

verus! {

/// `order` lists each position `0 .. len` exactly once.
pub open spec fn is_order_of(order: Seq<usize>, len: nat) -> bool {
    &&& order.len() == len
    &&& forall|i: int| 0 <= i < len ==> #[trigger] order[i] < len
    &&& forall|i: int, j: int| 0 <= i < len && 0 <= j < len && i != j ==> order[i] != order[j]
}

/// The items rearranged so that position `i` holds `items[order[i]]`.
pub open spec fn permuted<T>(items: Seq<T>, order: Seq<usize>) -> Seq<T> {
    Seq::new(order.len(), |i: int| items[order[i] as int])
}

/// The order in which a shuffle seeded with `seed` lists `len` positions.
pub uninterp spec fn seeded_shuffle_order(seed: int, len: int) -> Seq<usize>;

/// Relies on burn's `ShuffledDataset::with_seed`: it shuffles the positions
/// `0 .. len` with a `StdRng` seeded from `seed` and reads them back in the
/// new order, so the result is a permutation of them that depends on the seed
/// and the length alone.
#[verifier::external_body]
fn seeded_order(len: usize, seed: u64) -> (r: Vec<usize>)
    ensures
        r@ == seeded_shuffle_order(seed as int, len as int),
        is_order_of(r@, len as nat),
{
    let positions: Vec<usize> = (0..len).collect();
    ShuffledDataset::<InMemDataset<usize>, usize>::with_seed(InMemDataset::new(positions), seed)
        .iter()
        .collect()
}

/// Relies on rand's `StdRng::try_from_os_rng` and burn's
/// `ShuffledDataset::new`: a permutation of the positions `0 .. len` drawn
/// from operating-system randomness, or `None` when the system has none.
#[verifier::external_body]
fn random_order(len: usize) -> (r: Option<Vec<usize>>)
    ensures
        r matches Some(order) ==> is_order_of(order@, len as nat),
{
    let positions: Vec<usize> = (0..len).collect();
    match StdRng::try_from_os_rng() {
        Ok(mut rng) => Some(
            ShuffledDataset::<InMemDataset<usize>, usize>::new(InMemDataset::new(positions), &mut rng)
                .iter()
                .collect(),
        ),
        Err(_) => None,
    }
}

/// `items` rearranged by `order`.
fn apply_order<T: Copy>(items: &Vec<T>, order: &Vec<usize>) -> (r: Vec<T>)
    requires
        forall|i: int| 0 <= i < order@.len() ==> #[trigger] order@[i] < items@.len(),
    ensures
        r@ == permuted(items@, order@),
{
    let mut out: Vec<T> = Vec::new();
    let mut i: usize = 0;
    while i < order.len()
        invariant
            i <= order@.len(),
            forall|k: int| 0 <= k < order@.len() ==> #[trigger] order@[k] < items@.len(),
            out@ == permuted(items@, order@).subrange(0, i as int),
        decreases order@.len() - i,
    {
        out.push(items[order[i]]);
        i = i + 1;
        assert(out@ == permuted(items@, order@).subrange(0, i as int));
    }
    out
}

/// A sequence of records in shuffled order.
#[derive(Debug, Clone)]
pub struct TaxifareRawDataset<T> {
    items: Vec<T>,
}

impl<T> View for TaxifareRawDataset<T> {
    type V = Seq<T>;

    closed spec fn view(&self) -> Seq<T> {
        self.items@
    }
}

impl<T: Copy> TaxifareRawDataset<T> {
    pub fn len(&self) -> (r: usize)
        ensures
            r == self@.len(),
    {
        self.items.len()
    }

    pub fn get(&self, index: usize) -> (r: Option<T>)
        ensures
            index < self@.len() ==> r == Some(self@[index as int]),
            index >= self@.len() ==> r is None,
    {
        if index < self.items.len() {
            Some(self.items[index])
        } else {
            None
        }
    }

    pub fn items(&self) -> (r: &Vec<T>)
        ensures
            r@ == self@,
    {
        &self.items
    }
}

/// Where the records are read from, and the seed of their shuffle.
pub struct TaxifareRawDatasetBuilder<'a> {
    file_name: &'a str,
    seed: Option<u64>,
}

impl<'a> TaxifareRawDatasetBuilder<'a> {
    pub closed spec fn spec_file_name(&self) -> Seq<char> {
        self.file_name@
    }

    pub closed spec fn spec_seed(&self) -> Option<u64> {
        self.seed
    }

    pub fn new(file_name: &'a str, seed: Option<u64>) -> (r: Self)
        ensures
            r.spec_file_name() == file_name@,
            r.spec_seed() == seed,
    {
        Self { file_name, seed }
    }

    pub fn file_name(&self) -> (r: &'a str)
        ensures
            r@ == self.spec_file_name(),
    {
        self.file_name
    }

    pub fn seed(&self) -> (r: Option<u64>)
        ensures
            r == self.spec_seed(),
    {
        self.seed
    }

    /// Shuffles the records read from the file. With a seed the order is
    /// fixed by the seed and the number of records; without one it is drawn
    /// afresh, and the load fails only when no randomness is available.
    pub fn init<T: Copy>(&self, records: Vec<T>) -> (r: Result<TaxifareRawDataset<T>, DataError>)
        ensures
            self.spec_seed() matches Some(seed) ==> r is Ok && r->Ok_0@ == permuted(
                records@,
                seeded_shuffle_order(seed as int, records@.len() as int),
            ),
            r matches Ok(d) ==> exists|order: Seq<usize>|
                is_order_of(order, records@.len()) && d@ == permuted(records@, order),
            r matches Err(e) ==> self.spec_seed() is None && e == DataError::NoEntropy,
    {
        let order = match self.seed {
            Some(seed) => seeded_order(records.len(), seed),
            None => match random_order(records.len()) {
                Some(order) => order,
                None => return Err(DataError::NoEntropy),
            },
        };
        let items = apply_order(&records, &order);
        let r = TaxifareRawDataset { items };
        assert(is_order_of(order@, records@.len()) && r@ == permuted(records@, order@));
        Ok(r)
    }
}

/// Model-ready items in the shuffled order of the records they come from.
#[derive(Debug, Clone)]
pub struct TaxifareMappedDataset<F> {
    items: Vec<TaxifareDatasetMappedItem<F>>,
}

impl<F> View for TaxifareMappedDataset<F> {
    type V = Seq<TaxifareDatasetMappedItem<F>>;

    closed spec fn view(&self) -> Seq<TaxifareDatasetMappedItem<F>> {
        self.items@
    }
}

/// Each engineered record mapped to its model-ready item, in order.
pub open spec fn mapped_items<F>(items: Seq<TaxifareDatasetRawItem<F>>) -> Seq<TaxifareDatasetMappedItem<F>> {
    items.map_values(|item: TaxifareDatasetRawItem<F>| mapped_item_of(item))
}

impl<F: Copy> TaxifareMappedDataset<F> {
    pub fn new(dataset: TaxifareRawDataset<TaxifareDatasetRawItem<F>>, mapper: RawDatafieldToFeaturesMapper) -> (r: Self)
        ensures
            r@ == mapped_items(dataset@),
    {
        let mut items: Vec<TaxifareDatasetMappedItem<F>> = Vec::new();
        let mut i: usize = 0;
        while i < dataset.items.len()
            invariant
                i <= dataset@.len(),
                items@ == mapped_items(dataset@).subrange(0, i as int),
            decreases dataset@.len() - i,
        {
            items.push(mapper.map(&dataset.items[i]));
            i = i + 1;
            assert(items@ == mapped_items(dataset@).subrange(0, i as int));
        }
        assert(mapped_items(dataset@).subrange(0, dataset@.len() as int) == mapped_items(dataset@));
        TaxifareMappedDataset { items }
    }

    pub fn len(&self) -> (r: usize)
        ensures
            r == self@.len(),
    {
        self.items.len()
    }

    pub fn items(&self) -> (r: &Vec<TaxifareDatasetMappedItem<F>>)
        ensures
            r@ == self@,
    {
        &self.items
    }
}

/// One partition of a dataset: a contiguous run of its shuffled items.
#[derive(Debug, Clone)]
pub struct TaxifareDataset<F> {
    items: Vec<TaxifareDatasetMappedItem<F>>,
}

impl<F> View for TaxifareDataset<F> {
    type V = Seq<TaxifareDatasetMappedItem<F>>;

    closed spec fn view(&self) -> Seq<TaxifareDatasetMappedItem<F>> {
        self.items@
    }
}

impl<F: Copy> TaxifareDataset<F> {
    pub fn len(&self) -> (r: usize)
        ensures
            r == self@.len(),
    {
        self.items.len()
    }

    pub fn get(&self, index: usize) -> (r: Option<TaxifareDatasetMappedItem<F>>)
        ensures
            index < self@.len() ==> r == Some(self@[index as int]),
            index >= self@.len() ==> r is None,
    {
        if index < self.items.len() {
            Some(self.items[index])
        } else {
            None
        }
    }

    pub fn items(&self) -> (r: &Vec<TaxifareDatasetMappedItem<F>>)
        ensures
            r@ == self@,
    {
        &self.items
    }
}

/// Which run of the shuffled sequence a partition takes.
#[derive(Debug, Clone, Copy, PartialEq, Eq, Structural)]
pub enum Partition {
    Train,
    Test,
}

impl Partition {
    /// `train` or `test`; any other name is a configuration error.
    pub fn from_name(name: &str) -> (r: Result<Partition, ConfigError>)
        ensures
            name@ == "train"@ ==> r == Ok::<Partition, ConfigError>(Partition::Train),
            name@ == "test"@ ==> r == Ok::<Partition, ConfigError>(Partition::Test),
            name@ != "train"@ && name@ != "test"@ ==> r == Err::<Partition, ConfigError>(
                ConfigError::UnknownPartition),
    {
        proof {
            reveal_strlit("train");
            reveal_strlit("test");
            assert("test"@.len() != "train"@.len());
        }
        let given = name.to_owned();
        if given == "train".to_owned() {
            Ok(Partition::Train)
        } else if given == "test".to_owned() {
            Ok(Partition::Test)
        } else {
            Err(ConfigError::UnknownPartition)
        }
    }
}

/// Number of items in the train partition: `floor(len * pct / 100)`.
pub open spec fn split_point(len: nat, pct: nat) -> nat {
    len * pct / 100
}

/// The train partition: the first `split_point` items.
pub open spec fn train_part<T>(shuffled: Seq<T>, pct: nat) -> Seq<T> {
    shuffled.subrange(0, split_point(shuffled.len(), pct) as int)
}

/// The test partition: the items after the train partition.
pub open spec fn test_part<T>(shuffled: Seq<T>, pct: nat) -> Seq<T> {
    shuffled.subrange(split_point(shuffled.len(), pct) as int, shuffled.len() as int)
}

pub open spec fn partition_of<T>(shuffled: Seq<T>, pct: nat, which: Partition) -> Seq<T> {
    match which {
        Partition::Train => train_part(shuffled, pct),
        Partition::Test => test_part(shuffled, pct),
    }
}

/// With a percentage of at most 100 the train partition is no longer than
/// the whole.
proof fn lemma_split_point_bounded(len: nat, pct: nat)
    requires
        pct <= 100,
    ensures
        split_point(len, pct) <= len,
{
    assert(len * pct <= len * 100) by (nonlinear_arith)
        requires
            pct <= 100,
    ;
    assert(len * pct / 100 <= len * 100 / 100) by (nonlinear_arith)
        requires
            len * pct <= len * 100,
    ;
    assert(len * 100 / 100 == len) by (nonlinear_arith);
}

/// `floor(len * pct / 100)`, computed without overflow.
pub fn split_index(len: usize, pct: usize) -> (r: usize)
    requires
        pct <= 100,
    ensures
        r == split_point(len as nat, pct as nat),
{
    let q = len / 100;
    let rem = len % 100;
    proof {
        assert(q * pct <= len) by (nonlinear_arith)
            requires
                q == len / 100,
                pct <= 100,
        ;
        assert(rem * pct <= 9900) by (nonlinear_arith)
            requires
                rem < 100,
                pct <= 100,
        ;
        lemma_hoist_over_denominator((rem * pct) as int, (q * pct) as int, 100);
        assert(len * pct == rem * pct + (q * pct) * 100) by (nonlinear_arith)
            requires
                len == q * 100 + rem,
        ;
        lemma_split_point_bounded(len as nat, pct as nat);
    }
    q * pct + rem * pct / 100
}

/// Train and test partitions of one shuffled sequence: the train partition
/// holds the first `floor(len * pct / 100)` items and the test partition the
/// rest. Together they have `len` items and, in order, make up the whole
/// sequence; position `i` of the test partition is position
/// `split_point + i` of the sequence, so no position is in both.
pub proof fn lemma_partitions_cover_shuffled_sequence<T>(shuffled: Seq<T>, pct: nat)
    requires
        pct <= 100,
    ensures
        train_part(shuffled, pct).len() == split_point(shuffled.len(), pct),
        train_part(shuffled, pct).len() + test_part(shuffled, pct).len() == shuffled.len(),
        train_part(shuffled, pct) + test_part(shuffled, pct) == shuffled,
        forall|i: int|
            0 <= i < train_part(shuffled, pct).len() ==> #[trigger] train_part(shuffled, pct)[i]
                == shuffled[i],
        forall|i: int|
            0 <= i < test_part(shuffled, pct).len() ==> #[trigger] test_part(shuffled, pct)[i]
                == shuffled[split_point(shuffled.len(), pct) + i],
{
    lemma_split_point_bounded(shuffled.len(), pct);
    assert(train_part(shuffled, pct) + test_part(shuffled, pct) =~= shuffled);
}

/// The model-ready items a seeded build yields from `records`.
pub open spec fn seeded_build<F>(records: Seq<TaxifareDatasetRawItem<F>>, seed: u64) -> Seq<
    TaxifareDatasetMappedItem<F>,
> {
    mapped_items(permuted(records, seeded_shuffle_order(seed as int, records.len() as int)))
}

/// With a seed, train and test membership are fixed by the records, the seed
/// and the percentage: two builds of the same records with the same seed
/// give the same partitions.
pub proof fn lemma_seeded_partitions_reproducible<F>(
    records: Seq<TaxifareDatasetRawItem<F>>,
    seed: u64,
    pct: nat,
    first: Seq<TaxifareDatasetMappedItem<F>>,
    second: Seq<TaxifareDatasetMappedItem<F>>,
)
    requires
        first == seeded_build(records, seed),
        second == seeded_build(records, seed),
    ensures
        train_part(first, pct) == train_part(second, pct),
        test_part(first, pct) == test_part(second, pct),
{
}

/// Where the records are read from, the seed of their shuffle and the
/// percentage of them that goes to the train partition.
pub struct TaxifareDatasetBuilder<'a> {
    file_name: &'a str,
    seed: Option<u64>,
    train_test_split_percentage: usize,
}

impl<'a> TaxifareDatasetBuilder<'a> {
    pub closed spec fn spec_file_name(&self) -> Seq<char> {
        self.file_name@
    }

    pub closed spec fn spec_seed(&self) -> Option<u64> {
        self.seed
    }

    pub closed spec fn spec_percentage(&self) -> nat {
        self.train_test_split_percentage as nat
    }

    #[verifier::type_invariant]
    closed spec fn inv(&self) -> bool {
        self.train_test_split_percentage <= 100
    }

    pub fn new(file_name: &'a str, train_test_split_percentage: usize, seed: Option<u64>) -> (r: Self)
        requires
            train_test_split_percentage <= 100,
        ensures
            r.spec_file_name() == file_name@,
            r.spec_seed() == seed,
            r.spec_percentage() == train_test_split_percentage,
    {
        Self { file_name, seed, train_test_split_percentage }
    }

    pub fn file_name(&self) -> (r: &'a str)
        ensures
            r@ == self.spec_file_name(),
    {
        self.file_name
    }

    pub fn seed(&self) -> (r: Option<u64>)
        ensures
            r == self.spec_seed(),
    {
        self.seed
    }

    pub fn train_test_split_percentage(&self) -> (r: usize)
        ensures
            r == self.spec_percentage(),
            r <= 100,
    {
        proof {
            use_type_invariant(self);
        }
        self.train_test_split_percentage
    }

    /// Shuffles the records once (see `TaxifareRawDatasetBuilder::init`) and
    /// maps them to model-ready items. Both partitions are taken from the
    /// result, so they come from the same shuffle.
    pub fn build<F: Copy>(&self, records: Vec<TaxifareDatasetRawItem<F>>) -> (r: Result<
        TaxifareMappedDataset<F>,
        DataError,
    >)
        ensures
            self.spec_seed() matches Some(seed) ==> r is Ok && r->Ok_0@ == seeded_build(records@, seed),
            r matches Ok(d) ==> exists|order: Seq<usize>|
                is_order_of(order, records@.len()) && d@ == mapped_items(permuted(records@, order)),
            r matches Err(e) ==> self.spec_seed() is None && e == DataError::NoEntropy,
    {
        let shuffled = match TaxifareRawDatasetBuilder::new(self.file_name, self.seed).init(records) {
            Ok(d) => d,
            Err(e) => return Err(e),
        };
        let r = TaxifareMappedDataset::new(shuffled, RawDatafieldToFeaturesMapper);
        Ok(r)
    }

    /// The partition called `split` (`train` or `test`) of the dataset.
    pub fn init<F: Copy>(&self, dataset: &TaxifareMappedDataset<F>, split: &str) -> (r: Result<
        TaxifareDataset<F>,
        ConfigError,
    >)
        ensures
            split@ == "train"@ ==> r is Ok && r->Ok_0@ == train_part(dataset@, self.spec_percentage()),
            split@ == "test"@ ==> r is Ok && r->Ok_0@ == test_part(dataset@, self.spec_percentage()),
            split@ != "train"@ && split@ != "test"@ ==> r == Err::<TaxifareDataset<F>, ConfigError>(
                ConfigError::UnknownPartition),
    {
        match Partition::from_name(split) {
            Ok(which) => Ok(self.partition(dataset, which)),
            Err(e) => Err(e),
        }
    }

    /// The given partition of the dataset.
    pub fn partition<F: Copy>(&self, dataset: &TaxifareMappedDataset<F>, which: Partition) -> (r: TaxifareDataset<F>)
        ensures
            r@ == partition_of(dataset@, self.spec_percentage(), which),
    {
        proof {
            use_type_invariant(self);
            lemma_split_point_bounded(dataset@.len(), self.spec_percentage());
        }
        let len = dataset.items.len();
        let split_idx = split_index(len, self.train_test_split_percentage);
        let (start, end) = match which {
            Partition::Train => (0, split_idx),
            Partition::Test => (split_idx, len),
        };
        let mut items: Vec<TaxifareDatasetMappedItem<F>> = Vec::new();
        let mut i: usize = start;
        while i < end
            invariant
                start <= i <= end,
                end <= dataset@.len(),
                items@ == dataset@.subrange(start as int, i as int),
            decreases end - i,
        {
            items.push(dataset.items[i]);
            i = i + 1;
            assert(items@ == dataset@.subrange(start as int, i as int));
        }
        TaxifareDataset { items }
    }

    /// The train partition: the first `floor(len * pct / 100)` items.
    pub fn train<F: Copy>(&self, dataset: &TaxifareMappedDataset<F>) -> (r: TaxifareDataset<F>)
        ensures
            r@ == train_part(dataset@, self.spec_percentage()),
    {
        self.partition(dataset, Partition::Train)
    }

    /// The test partition: the items after the train partition.
    pub fn test<F: Copy>(&self, dataset: &TaxifareMappedDataset<F>) -> (r: TaxifareDataset<F>)
        ensures
            r@ == test_part(dataset@, self.spec_percentage()),
    {
        self.partition(dataset, Partition::Test)
    }
}

} // verus!
