//! Plain records and pure rules of the Eigenlayer integration.
//!
//! Everything that talks to a contract, a key store or the clock lives outside
//! this crate; what is here can be checked without them.

pub mod config;
pub mod operator;
pub mod oracle_integration;
pub mod types;

pub use operator::OperatorInfo;
pub use types::{AVSIdentifier, QuorumInfo, RestakeInfo, StakeAmount};
