//! Recovery of a scrambled twelve-word BIP-39 phrase: the orderings of the
//! words are walked in a fixed order, each candidate phrase is checked and
//! taken through the derivation path `m/44'/0'/0'/0/0`, and the first one
//! whose legacy mainnet address equals the target address is reported.

pub mod engine;
pub mod error;
pub mod language;
pub mod orders;
pub mod search;
pub mod target;

pub use engine::{derive_address, receive_path, Network, PathStep};
pub use error::SearchError;
pub use orders::first_orders;
pub use language::{language_of_name, parse_language, Language};
pub use search::{join_order, progress_due, recover, search_permutations, Search, SearchOutcome};
pub use target::{is_mainnet_legacy, parse_target, TargetAddress};
