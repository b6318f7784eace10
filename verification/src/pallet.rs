//! Helpers of the chain's pallets that need nothing of the runtime around them.

pub mod oracle;
pub mod oracle_liquidity;
pub mod types;
