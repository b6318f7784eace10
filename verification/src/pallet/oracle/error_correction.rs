//! Light framing of oracle messages, one module per layer.
//!
//! These layers only add and strip fixed amounts of redundancy. The codecs
//! that detect and repair damage live in [`crate::error_correction`].

pub mod bridge;
pub mod classical;
pub mod quantum;
