//! Verified core of a delegative ("liquid democracy") vote engine.
//!
//! A configuration names voters and policies and records how each voter
//! splits its weight among other voters and policies. The core builds a
//! square delegation matrix from the configuration, resolves transitive
//! delegation by accumulating matrix powers over a fixed iteration budget,
//! and reduces the result to per-policy vote totals and per-voter influence
//! scores.
//!
//! All weights are fixed-point numbers: a `u64` holding the weight scaled
//! by [`SCALE`], so that `SCALE` itself stands for the weight one. Every
//! arithmetic step saturates at `u64::MAX` instead of overflowing.

use vstd::prelude::*;

mod builder;
mod config;
mod matrix;
mod policy;
mod resolver;
mod result;

pub use builder::create_matrix;
pub use builder::VoteError;
pub use config::Setting;
pub use config::VoteEntry;
pub use config::VoteRecord;
pub use matrix::Matrix;
pub use policy::match_by_string;
pub use policy::Policy;
pub use resolver::calculate;
pub use result::poll_result;
pub use result::PollResult;
pub use result::ScoreEntry;

verus! {

/// The fixed-point scale: the `u64` representation of the weight one.
pub const SCALE: u64 = 4294967296;

/// The iteration budget of the resolver: how many matrix powers are taken
/// and accumulated. A fixed count, by design: there is no convergence check
/// and no early termination.
pub const ITERATIONS: usize = 1000;

} // verus!
