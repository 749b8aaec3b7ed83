//! Verified logic of a raffle factory and of raffle draws: the factory's
//! state machine (timelocked administration, raffle registry, recurring
//! raffles, rate limiting, partner statistics, leaderboards), the seeded
//! winner selection, ticket commitments, and the hashing of draw and
//! checkpoint inputs.
pub mod address;
pub mod admin;
pub mod commit;
pub mod creation;
pub mod factory;
pub mod hashing;
pub mod laws;
pub mod lcg;
pub mod leaderboard;
pub mod orbit;
pub mod queries;
pub mod sdk;
pub mod selection;
pub mod strmap;
pub mod types;

pub use address::Address;
pub use factory::RaffleFactory;
pub use selection::OracleSeedWinnerSelection;
pub use types::{ContractError, PartnerStats, ProtocolStats};
