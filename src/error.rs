//! Error values of the library.
use vstd::prelude::*;

verus! {

/// A configuration that cannot describe a model or a dataset.
#[derive(Debug, Clone, Copy, PartialEq, Eq, Structural)]
pub enum ConfigError {
    /// The model was given no hidden layer.
    MissingHiddenLayers,
    /// A layer, or the continuous input, was given width zero.
    ZeroWidth,
    /// The width of the first hidden layer's input does not fit in `usize`.
    WidthOverflow,
    /// A dropout probability above one.
    DropoutOutOfRange,
    /// A partition name other than `train` or `test`.
    UnknownPartition,
}

/// Input data that cannot be turned into records.
#[derive(Debug, Clone, Copy, PartialEq, Eq, Structural)]
pub enum DataError {
    /// The pickup timestamp of the given row is not of the form
    /// `YYYY-MM-DD HH:MM:SS UTC`, or names no valid date and time.
    MalformedTimestamp { row: usize },
    /// No seed was given and the operating system offered no randomness to
    /// shuffle with.
    NoEntropy,
}

} // verus!
