//! What the oracle pallet computes on plain bytes: its stand-in key material
//! and the light framing it wraps price messages in.

pub mod crypto;
pub mod error_correction;
