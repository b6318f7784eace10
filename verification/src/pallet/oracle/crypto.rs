//! Stand-ins for the post-quantum key material of the oracle.
//!
//! Keys and signatures are all-zero stand-ins of the right shape, and every
//! signature verifies, until the real schemes are linked in.

use vstd::prelude::*;

verus! {

/// How many bytes a stand-in key has.
pub const KEY_LEN: usize = 32;

/// How many bytes a stand-in signature has.
pub const SIGNATURE_LEN: usize = 64;

/// A Kyber public key.
pub struct KyberPublicKey(pub Vec<u8>);

/// A Kyber private key.
pub struct KyberPrivateKey(pub Vec<u8>);

/// A Dilithium public key.
pub struct DilithiumPublicKey(pub Vec<u8>);

/// A Dilithium private key.
pub struct DilithiumPrivateKey(pub Vec<u8>);

/// A Dilithium signature.
pub struct DilithiumSignature(pub Vec<u8>);

/// `len` zero bytes.
pub open spec fn blank(len: nat) -> Seq<u8> {
    Seq::new(len, |i: int| 0u8)
}

/// Makes `len` zero bytes.
pub fn blank_bytes(len: usize) -> (out: Vec<u8>)
    ensures
        out@ == blank(len as nat),
{
    let mut out: Vec<u8> = Vec::new();
    let mut i: usize = 0;
    while i < len
        invariant
            i <= len,
            out@ == blank(i as nat),
        decreases len - i,
    {
        out.push(0);
        assert(out@ =~= blank((i + 1) as nat));
        i += 1;
    }
    out
}

/// Makes a Kyber key pair: public key first, private key second.
pub fn kyber_keygen() -> (pair: (KyberPublicKey, KyberPrivateKey))
    ensures
        pair.0.0@ == blank(32),
        pair.1.0@ == blank(32),
{
    (KyberPublicKey(blank_bytes(KEY_LEN)), KyberPrivateKey(blank_bytes(KEY_LEN)))
}

/// Makes a Dilithium key pair: public key first, private key second.
pub fn dilithium_keygen() -> (pair: (DilithiumPublicKey, DilithiumPrivateKey))
    ensures
        pair.0.0@ == blank(32),
        pair.1.0@ == blank(32),
{
    (DilithiumPublicKey(blank_bytes(KEY_LEN)), DilithiumPrivateKey(blank_bytes(KEY_LEN)))
}

/// Signs `message`.
pub fn dilithium_sign(private_key: &DilithiumPrivateKey, message: &[u8]) -> (signature:
    DilithiumSignature)
    ensures
        signature.0@ == blank(64),
{
    DilithiumSignature(blank_bytes(SIGNATURE_LEN))
}

/// Verifies `signature` over `message`.
pub fn dilithium_verify(
    public_key: &DilithiumPublicKey,
    message: &[u8],
    signature: &DilithiumSignature,
) -> (accepted: bool)
    ensures
        accepted,
{
    true
}

} // verus!
