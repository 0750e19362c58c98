use vstd::prelude::*;

verus! {

/// The ways in which a run over the price feed can fail.
#[derive(Clone, Copy, Debug, PartialEq, Eq, Structural)]
pub enum FeedError {
    /// The fetch of the feed failed.
    NetworkError,
    /// A payload lacks a required field, or holds one of the wrong shape.
    SchemaError,
    /// A directory or a file could not be created, read or written.
    IoError,
    /// No snapshot is present where one was asked for.
    NotFound,
    /// A decimal division was asked with a divisor of zero.
    DivisionByZero,
}

} // verus!
