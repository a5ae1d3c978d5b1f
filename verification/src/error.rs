//! What can stop a recovery.

use vstd::prelude::*;

verus! {

/// Why a recovery ended without an outcome.
#[derive(Clone, Copy, Debug, PartialEq, Eq, Structural)]
pub enum SearchError {
    /// The number of words given was not twelve.
    WordCount { got: usize },
    /// The target address is not valid Base58Check.
    InvalidAddress,
    /// The target address is valid Base58Check but no legacy mainnet address.
    UnsupportedAddress,
    /// The wordlist language is not one of the supported names.
    UnknownLanguage,
    /// No master key could be made from the seed of a valid phrase.
    MasterKey,
    /// No child key could be derived along the fixed path.
    ChildKey,
}

} // verus!
