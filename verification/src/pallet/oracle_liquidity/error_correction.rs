//! Framing of price data on its way from the oracle to the liquidity pools:
//! all three layers of the oracle framing, one around the other.

use vstd::prelude::*;
use crate::pallet::oracle::error_correction::{bridge, classical, quantum};

verus! {

/// The redundancy value of the classical layer for price data.
pub const PRICE_CLASSICAL_REDUNDANCY: u8 = 8;

/// The redundancy level handed to the bridge layer for price data.
pub const PRICE_BRIDGE_REDUNDANCY: u8 = 4;

/// `data` wrapped in the classical layer with the given redundancy value, then
/// the bridge layer, then the quantum layer.
pub open spec fn wrapped(data: Seq<u8>, redundancy: u8) -> Seq<u8> {
    quantum::protected(bridge::encoded(classical::encoded(data, redundancy)))
}

/// `data` with the three layers taken off again, outermost first; `None` as
/// soon as one layer does not come off.
pub open spec fn unwrapped(data: Seq<u8>) -> Option<Seq<u8>> {
    match quantum::recovered(data) {
        None => None,
        Some(bridged) => match bridge::decoded(bridged) {
            None => None,
            Some(inner) => classical::decoded(inner),
        },
    }
}

/// Wraps price data in all three layers.
pub fn protect_price_data(price_data: &[u8]) -> (out: Vec<u8>)
    ensures
        out@ == wrapped(price_data@, PRICE_CLASSICAL_REDUNDANCY),
{
    let inner = classical::encode(price_data, PRICE_CLASSICAL_REDUNDANCY);
    let bridged = bridge::encode(inner.as_slice(), PRICE_BRIDGE_REDUNDANCY);
    quantum::protect(bridged.as_slice())
}

/// Takes all three layers off protected price data.
pub fn recover_price_data(protected_data: &[u8]) -> (out: Option<Vec<u8>>)
    ensures
        match out {
            Some(bytes) => unwrapped(protected_data@) == Some(bytes@),
            None => unwrapped(protected_data@) is None,
        },
{
    let bridged = match quantum::recover(protected_data) {
        Some(bytes) => bytes,
        None => {
            return None;
        },
    };
    let inner = match bridge::decode(bridged.as_slice()) {
        Some(bytes) => bytes,
        None => {
            return None;
        },
    };
    classical::decode(inner.as_slice())
}

/// Unwrapping undoes wrapping.
pub proof fn lemma_unwrap_undoes_wrap(data: Seq<u8>, redundancy: u8)
    ensures
        unwrapped(wrapped(data, redundancy)) == Some(data),
{
    let inner = classical::encoded(data, redundancy);
    let bridged = bridge::encoded(inner);
    quantum::lemma_recover_undoes_protect(bridged);
    bridge::lemma_decode_undoes_encode(inner);
    classical::lemma_decode_undoes_encode(data, redundancy);
}

} // verus!
