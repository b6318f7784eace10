//! What the link between oracle and liquidity pools computes on plain bytes.

pub mod error_correction;
