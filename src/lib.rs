//! Backend commands of the card canvas: a health check, and the search for
//! the card dataset file among an ordered list of candidate locations.
use vstd::prelude::*;

pub mod config;
pub mod health;
pub mod loader;
pub mod text;

pub use config::{candidate_paths, universe_candidates, FALLBACK, PREFERRED};
pub use health::ping;
pub use loader::{decide, LoadError, Loader, Probe, Step};
pub use text::is_blank;

verus! {

} // verus!
