use vstd::prelude::*;

verus! {

/// Why a raw number cannot become an observation.
#[derive(Clone, Copy, Debug, PartialEq, Eq)]
pub enum ParseNonNaNError {
    ParseFloatError,
    NaNOrInfiniteError,
}

/// Why a raw value is not a finite number.
#[derive(Clone, Copy, Debug, PartialEq, Eq)]
pub enum NonFinite {
    NaN,
    Infinite,
}

/// What the detection can fail on.
#[derive(Debug, PartialEq, Eq)]
pub enum Error {
    /// The raw value at this index is not a finite number.
    InvalidValue(usize, NonFinite),
    /// The sequence has this many values, too few for this minimum segment length.
    NotEnoughValues(usize, usize),
    /// A scan of one permuted copy failed, for this reason.
    PermutationScanFailed(Box<Error>),
}

} // verus!
