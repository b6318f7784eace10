//! Verified building blocks of the ELXR chain.
//!
//! The heart of the crate is [`error_correction`]: three framing codecs that
//! protect byte payloads before they cross a trust or medium boundary, their
//! composition, and the laws that hold of them. Around it stand the messages
//! between components ([`integration`]), the records and rules of the
//! Eigenlayer integration ([`eigenlayer`]), and what the pallets compute on
//! plain values ([`pallet`]).
//!
//! Every function states what it returns, and a codec holds nothing but its
//! parameters, so all of it can be used from any number of threads at once.

mod bytes;
pub mod eigenlayer;
pub mod error_correction;
pub mod integration;
pub mod pallet;
