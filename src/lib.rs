//! Election lifecycle, voter-roll eligibility, exactly-once ballot recording
//! and closure-gated tallying, with every rule stated as a contract.

pub mod error;
pub mod model;
pub mod text;
pub mod store;
pub mod lifecycle;
pub mod recorder;
pub mod tally;
pub mod laws;
pub mod domain;
pub mod pagination;
pub mod rate_limit;
pub mod import;
pub mod roll_import;
pub mod ballots;
