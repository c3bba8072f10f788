//! A small governance engine: a council of weighted members votes on proposals,
//! and a proposal's action is carried out once the weighted "yes" share reaches
//! the consensus threshold or its voting deadline has passed.
//!
//! The library is a pure state machine. Whoever drives it supplies the caller's
//! identity, the attached deposit and the current time as plain values, and
//! performs the transfers that a call hands back.

pub mod types;
pub mod council;
pub mod proposal;
pub mod store;
pub mod dao;
pub mod laws;

pub use crate::council::{Council, CouncilRegistry};
pub use crate::dao::DAO;
pub use crate::proposal::{Ballot, Proposal, ProposalInput};
pub use crate::store::ProposalStore;
pub use crate::types::{
    DaoError, ProposalStatus, ProposalType, Transfer, Vote, Weight, CONSENSUS_PERCENTAGE,
};
