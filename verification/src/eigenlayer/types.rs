//! Common records of the Eigenlayer integration.

use vstd::prelude::*;
use crate::bytes::copy_of;

verus! {

/// Identifies an actively validated service.
#[derive(Clone, Debug, PartialEq, Eq)]
pub struct AVSIdentifier {
    /// The Ethereum address of the service registry.
    pub registry_address: Vec<u8>,
    /// Unique service identifier.
    pub service_id: u32,
    /// Human-readable name of the service.
    pub name: String,
}

/// The standing of an operator.
#[derive(Clone, Copy, Debug, PartialEq, Eq, Structural)]
pub enum OperatorStatus {
    /// The operator is active and can take part in consensus.
    Active,
    /// The operator is registered but not yet active.
    Pending,
    /// The operator is temporarily disabled.
    Paused,
    /// The operator has been removed or slashed.
    Removed,
}

/// What is known of an operator's restaking.
#[derive(Clone, Debug, PartialEq, Eq)]
pub struct RestakeInfo {
    /// Ethereum address of the operator.
    pub operator_address: Vec<u8>,
    /// Total amount restaked, in wei.
    pub restaked_amount: u128,
    /// BLS public key of the operator.
    pub public_key: Vec<u8>,
    /// The quorums the operator takes part in.
    pub quorum_ids: Vec<u8>,
    /// The standing of the operator.
    pub status: OperatorStatus,
}

/// A [`RestakeInfo`] with its byte strings seen as sequences.
pub struct RestakeInfoView {
    /// Ethereum address of the operator.
    pub operator_address: Seq<u8>,
    /// Total amount restaked, in wei.
    pub restaked_amount: u128,
    /// BLS public key of the operator.
    pub public_key: Seq<u8>,
    /// The quorums the operator takes part in.
    pub quorum_ids: Seq<u8>,
    /// The standing of the operator.
    pub status: OperatorStatus,
}

impl View for RestakeInfo {
    type V = RestakeInfoView;

    open spec fn view(&self) -> RestakeInfoView {
        RestakeInfoView {
            operator_address: self.operator_address@,
            restaked_amount: self.restaked_amount,
            public_key: self.public_key@,
            quorum_ids: self.quorum_ids@,
            status: self.status,
        }
    }
}

impl RestakeInfo {
    /// Whether the operator is active.
    pub fn is_active(&self) -> (active: bool)
        ensures
            active == (self.status == OperatorStatus::Active),
    {
        self.status == OperatorStatus::Active
    }

    /// Whether the operator takes part in quorum `quorum_id`.
    pub fn in_quorum(&self, quorum_id: u8) -> (member: bool)
        ensures
            member == self.quorum_ids@.contains(quorum_id),
    {
        let mut i: usize = 0;
        while i < self.quorum_ids.len()
            invariant
                i <= self.quorum_ids@.len(),
                forall|at: int| 0 <= at < i ==> self.quorum_ids@[at] != quorum_id,
            decreases self.quorum_ids@.len() - i,
        {
            if self.quorum_ids[i] == quorum_id {
                return true;
            }
            i += 1;
        }
        false
    }

    /// A copy with the same contents.
    pub fn duplicate(&self) -> (copy: Self)
        ensures
            copy@ == self@,
    {
        let copy = RestakeInfo {
            operator_address: copy_of(self.operator_address.as_slice(), self.operator_address.len()),
            restaked_amount: self.restaked_amount,
            public_key: copy_of(self.public_key.as_slice(), self.public_key.len()),
            quorum_ids: copy_of(self.quorum_ids.as_slice(), self.quorum_ids.len()),
            status: self.status,
        };
        assert(copy.operator_address@ =~= self.operator_address@);
        assert(copy.public_key@ =~= self.public_key@);
        assert(copy.quorum_ids@ =~= self.quorum_ids@);
        copy
    }
}

/// What is known of a quorum.
#[derive(Clone, Debug, PartialEq, Eq)]
pub struct QuorumInfo {
    /// Identifier of the quorum.
    pub quorum_id: u8,
    /// Number of operators in the quorum.
    pub operator_count: u32,
    /// Total amount staked in this quorum, in wei.
    pub total_stake: u128,
    /// Least stake required to join this quorum, in wei.
    pub min_stake: u128,
}

/// An amount staked in one token.
#[derive(Clone, Debug, PartialEq, Eq)]
pub struct StakeAmount {
    /// Ethereum address of the token; the zero address stands for ETH.
    pub token_address: Vec<u8>,
    /// Amount staked, in the smallest unit of the token.
    pub amount: u128,
}

/// How many bytes an Ethereum address has.
pub const ADDRESS_LEN: usize = 20;

/// An Ethereum address: twenty bytes.
#[derive(Clone, Copy, Debug, PartialEq, Eq)]
pub struct Address(pub [u8; 20]);

/// The bytes of an address.
pub fn address_to_bytes(address: &Address) -> (bytes: Vec<u8>)
    ensures
        bytes@ == address.0@,
{
    let mut bytes: Vec<u8> = Vec::new();
    let mut i: usize = 0;
    while i < ADDRESS_LEN
        invariant
            i <= 20,
            bytes@ == address.0@.take(i as int),
        decreases 20 - i,
    {
        bytes.push(address.0[i]);
        assert(address.0@.take(i + 1) =~= address.0@.take(i as int).push(address.0@[i as int]));
        i += 1;
    }
    assert(address.0@.take(20) =~= address.0@);
    bytes
}

/// The address that `bytes` spell out: there is one exactly when there are
/// twenty bytes.
pub fn bytes_to_address(bytes: &[u8]) -> (address: Option<Address>)
    ensures
        address is Some <==> bytes@.len() == ADDRESS_LEN,
        address matches Some(found) ==> found.0@ == bytes@,
{
    if bytes.len() != ADDRESS_LEN {
        return None;
    }
    let mut address_bytes = [0u8; 20];
    let mut i: usize = 0;
    while i < ADDRESS_LEN
        invariant
            bytes@.len() == 20,
            i <= 20,
            forall|at: int| 0 <= at < i ==> address_bytes@[at] == bytes@[at],
        decreases 20 - i,
    {
        address_bytes.set(i, bytes[i]);
        i += 1;
    }
    assert(address_bytes@ =~= bytes@);
    Some(Address(address_bytes))
}

/// Conversion between the records of this crate and those of the Eigenlayer
/// library. Both sides describe the same data, so a conversion changes the
/// representation and nothing else.
pub trait EigenlayerConversions: Sized {
    /// Whether `other` holds the same data as `self`.
    spec fn same_data(&self, other: &Self) -> bool;

    /// From the library's representation to the local one.
    fn to_local(&self) -> (local: Self)
        ensures
            self.same_data(&local),
    ;

    /// From the local representation to the library's.
    fn to_eigen(&self) -> (eigen: Self)
        ensures
            self.same_data(&eigen),
    ;
}

impl EigenlayerConversions for RestakeInfo {
    open spec fn same_data(&self, other: &Self) -> bool {
        self@ == other@
    }

    fn to_local(&self) -> (local: Self) {
        self.duplicate()
    }

    fn to_eigen(&self) -> (eigen: Self) {
        self.duplicate()
    }
}

} // verus!
