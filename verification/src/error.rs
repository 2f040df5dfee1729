//! Error taxonomy of the wishlist core.
use vstd::prelude::*;

verus! {

/// Every failure the core can report.
///
/// - `NetworkError`: transport or HTTP failure while talking to a storefront.
/// - `ParseError`: an expected structure or field was absent or malformed.
/// - `NotFoundError`: the storefront has no matching item, or the repository
///   has no such key for a price append.
/// - `UnknownStoreError`: the registry has no client for the given store name.
/// - `DataError`: a persistence-layer failure.
#[derive(Debug)]
pub enum Error {
    NetworkError(String),
    ParseError(String),
    NotFoundError(String),
    UnknownStoreError(String),
    DataError(String),
}

impl Error {
    /// The human-readable message carried by the error.
    pub fn message(&self) -> (r: &String)
        ensures
            *r == self.spec_message(),
    {
        match self {
            Error::NetworkError(m) => m,
            Error::ParseError(m) => m,
            Error::NotFoundError(m) => m,
            Error::UnknownStoreError(m) => m,
            Error::DataError(m) => m,
        }
    }

    pub open spec fn spec_message(&self) -> String {
        match self {
            Error::NetworkError(m) => *m,
            Error::ParseError(m) => *m,
            Error::NotFoundError(m) => *m,
            Error::UnknownStoreError(m) => *m,
            Error::DataError(m) => *m,
        }
    }
}

} // verus!
