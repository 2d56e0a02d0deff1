//! SoroTip: an on-chain tipping and creator monetization protocol.
//!
//! Tips and subscription charges move funds directly from a supporter's
//! wallet to a creator's wallet. The contract never custodies funds: it
//! routes payments and records the resulting history, profiles and
//! statistics.
pub mod contract;
pub mod env;
pub mod errors;
pub mod events;
pub mod keyed;
pub mod laws;
pub mod storage;
pub mod types;

pub use contract::{compute_fee, DueRun, TipContract};
pub use env::{Env, TokenCall};
pub use errors::{Error, Failure};
pub use events::Event;
pub use types::{
    Config, CreatorProfile, LeaderboardEntry, ProtocolStats, Subscription, Tip, TipGoal,
};
