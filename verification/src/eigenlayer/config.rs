//! Configuration records of the Eigenlayer integration.

use vstd::prelude::*;
use std::path::PathBuf;

verus! {

/// A path in the file system. Nothing is claimed of what it holds.
#[verifier::external_type_specification]
#[verifier::external_body]
pub struct ExPathBuf(std::path::PathBuf);

/// `PathBuf::clone` of the standard library. Nothing is claimed of the copy.
pub assume_specification[ <std::path::PathBuf as Clone>::clone ](
    path: &std::path::PathBuf,
) -> std::path::PathBuf;

/// Key store on disk and the password that opens it.
#[derive(Clone, Debug)]
pub struct KeystoreConfig {
    /// Path to the key store file.
    pub path: PathBuf,
    /// Password of the key store.
    pub password: String,
}

/// Access to a Fireblocks account.
#[derive(Clone, Debug)]
pub struct FireblocksConfig {
    /// API key.
    pub api_key: String,
    /// Path to the private key file.
    pub private_key_path: PathBuf,
    /// URL of the API.
    pub api_url: String,
}

/// The ways a signer can be configured. The first that is present is used:
/// key store, then private key, then Fireblocks.
#[derive(Clone, Debug)]
pub struct SignerConfigWrapper {
    /// Sign with a key store file.
    pub keystore: Option<KeystoreConfig>,
    /// Sign with a private key.
    pub private_key: Option<String>,
    /// Sign through Fireblocks.
    pub fireblocks: Option<FireblocksConfig>,
}

/// Which way of signing a configuration selects.
#[derive(Clone, Copy, Debug, PartialEq, Eq, Structural)]
pub enum SignerKind {
    /// A key store file.
    Keystore,
    /// A private key.
    PrivateKey,
    /// A Fireblocks account.
    Fireblocks,
}

impl SignerConfigWrapper {
    /// The way of signing that this configuration selects, if it names any.
    pub open spec fn selected(&self) -> Option<SignerKind> {
        if self.keystore is Some {
            Some(SignerKind::Keystore)
        } else if self.private_key is Some {
            Some(SignerKind::PrivateKey)
        } else if self.fireblocks is Some {
            Some(SignerKind::Fireblocks)
        } else {
            None
        }
    }

    /// Selects the way of signing: the key store if one is given, else the
    /// private key, else Fireblocks. `None` means that the configuration
    /// names no signer at all.
    pub fn signer_kind(&self) -> (kind: Option<SignerKind>)
        ensures
            kind == self.selected(),
    {
        if self.keystore.is_some() {
            Some(SignerKind::Keystore)
        } else if self.private_key.is_some() {
            Some(SignerKind::PrivateKey)
        } else if self.fireblocks.is_some() {
            Some(SignerKind::Fireblocks)
        } else {
            None
        }
    }
}

/// Addresses of the Eigenlayer contracts.
#[derive(Clone, Debug)]
pub struct ContractAddresses {
    /// Address of the delegation manager contract.
    pub delegation_manager: String,
    /// Address of the AVS directory contract.
    pub avs_directory: String,
    /// Address of the staking strategy manager contract.
    pub strategy_manager: String,
    /// Address of the registry coordinator of the chain.
    pub elxr_registry_coordinator: String,
    /// Address of the BLS public key compendium.
    pub bls_public_key_compendium: String,
    /// Address of the slasher contract.
    pub slasher: String,
}

} // verus!
