//! Vanity address search for Kaspa: random seed phrases, batched key
//! derivation, and prefix/suffix matching on the address text.

use vstd::prelude::*;

pub mod derive;
pub mod pattern;
pub mod search;
pub mod seed;

pub use derive::derive_batch;
pub use pattern::{validate_pattern, PatternError, SearchPattern};
pub use search::{check_phrase, first_match, is_report_point, search_once, Hit, SearchState, SearchStep};
pub use seed::{generate_random_mnemonic, SeedPhrase};

verus! {

} // verus!
