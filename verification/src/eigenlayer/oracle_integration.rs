//! The part of the oracle's verification context that computes on plain
//! bytes: stand-in key pairs and the framing of messages.

use vstd::prelude::*;
use crate::pallet::oracle::crypto::{blank, blank_bytes, KEY_LEN};
use crate::pallet::oracle::error_correction::{bridge, classical, quantum};
use crate::pallet::oracle_liquidity::error_correction::wrapped;

verus! {

/// Makes a Kyber key pair: public key first, private key second.
pub fn generate_kyber_keypair() -> (pair: (Vec<u8>, Vec<u8>))
    ensures
        pair.0@ == blank(32),
        pair.1@ == blank(32),
{
    (blank_bytes(KEY_LEN), blank_bytes(KEY_LEN))
}

/// Makes a Dilithium key pair: public key first, private key second.
pub fn generate_dilithium_keypair() -> (pair: (Vec<u8>, Vec<u8>))
    ensures
        pair.0@ == blank(32),
        pair.1@ == blank(32),
{
    (blank_bytes(KEY_LEN), blank_bytes(KEY_LEN))
}

/// The price the oracle quotes for an asset, with six decimals: NRSH is asset
/// 1, ELXR asset 2, and no other asset has a price.
pub open spec fn quoted_price(asset_id: u32) -> Option<u64> {
    if asset_id == 1 {
        Some(120_000_000u64)
    } else if asset_id == 2 {
        Some(250_000_000u64)
    } else {
        None
    }
}

/// Looks up the price of an asset.
pub fn asset_price(asset_id: u32) -> (price: Option<u64>)
    ensures
        price == quoted_price(asset_id),
{
    match asset_id {
        1 => Some(120_000_000),
        2 => Some(250_000_000),
        _ => None,
    }
}

/// What the recovery of a protected message yields: the message, or the words
/// that name the layer that did not come off.
pub open spec fn recovery(protected: Seq<u8>) -> Result<Seq<u8>, Seq<char>> {
    match quantum::recovered(protected) {
        None => Err("Quantum error correction recovery failed"@),
        Some(bridged) => match bridge::decoded(bridged) {
            None => Err("Bridge error correction recovery failed"@),
            Some(inner) => match classical::decoded(inner) {
                None => Err("Classical error correction recovery failed"@),
                Some(message) => Ok(message),
            },
        },
    }
}

/// Wraps `message` in the three layers of the oracle framing, with the
/// redundancy values of the verification context. This never fails.
pub fn apply_error_correction(
    message: &[u8],
    classical_redundancy: u8,
    bridge_redundancy: u8,
) -> (result: Result<Vec<u8>, String>)
    ensures
        result matches Ok(protected) && protected@ == wrapped(message@, classical_redundancy),
{
    let classical_encoded = classical::encode(message, classical_redundancy);
    let bridge_encoded = bridge::encode(classical_encoded.as_slice(), bridge_redundancy);
    let quantum_protected = quantum::protect(bridge_encoded.as_slice());
    Ok(quantum_protected)
}

/// Takes the three layers of the oracle framing off `protected_message`,
/// outermost first. The error names the layer that did not come off.
pub fn recover_from_errors(protected_message: &[u8]) -> (result: Result<Vec<u8>, String>)
    ensures
        match result {
            Ok(message) => recovery(protected_message@) == Ok::<Seq<u8>, Seq<char>>(message@),
            Err(words) => recovery(protected_message@) == Err::<Seq<u8>, Seq<char>>(words@),
        },
{
    let quantum_recovered = match quantum::recover(protected_message) {
        Some(bytes) => bytes,
        None => {
            return Err("Quantum error correction recovery failed".to_string());
        },
    };
    let bridge_recovered = match bridge::decode(quantum_recovered.as_slice()) {
        Some(bytes) => bytes,
        None => {
            return Err("Bridge error correction recovery failed".to_string());
        },
    };
    match classical::decode(bridge_recovered.as_slice()) {
        Some(bytes) => Ok(bytes),
        None => Err("Classical error correction recovery failed".to_string()),
    }
}

/// Recovery undoes protection: what [`apply_error_correction`] wrapped,
/// [`recover_from_errors`] hands back.
pub proof fn lemma_recovery_undoes_protection(message: Seq<u8>, redundancy: u8)
    ensures
        recovery(wrapped(message, redundancy)) == Ok::<Seq<u8>, Seq<char>>(message),
{
    let inner = classical::encoded(message, redundancy);
    let bridged = bridge::encoded(inner);
    quantum::lemma_recover_undoes_protect(bridged);
    bridge::lemma_decode_undoes_encode(inner);
    classical::lemma_decode_undoes_encode(message, redundancy);
}

} // verus!
