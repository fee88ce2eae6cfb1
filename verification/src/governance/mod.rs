//! Governance: the phased decentralization schedule, timelocked operations,
//! multi-signature proposals, an append-only hash-chained log, DAO voting and
//! multi-asset staking.

pub mod contract;
pub mod log;
pub mod multi_asset_staking;
pub mod multisig;
pub mod phase;
pub mod schnorr;
pub mod timelock;
pub mod voting;

pub use phase::{
    now_secs, DecentralizationSchedule, GovernancePhase, MULTISIG_THRESHOLD, MULTISIG_TOTAL,
    SECS_PER_MONTH, TIMELOCK_DELAY_SECS,
};
pub use contract::{DecentralizationStatus, GovernanceContract};
pub use log::{GovernanceEvent, GovernanceLog, GovernanceLogEntry};
pub use multisig::{MultiSigCoordinator, MultiSigProposal};
pub use schnorr::SchnorrProof;
pub use timelock::{Timelock, TimelockEntry};
