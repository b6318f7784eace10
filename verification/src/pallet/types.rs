//! Plain types of the chain's pallet and the order of the fermentation stages.

use vstd::prelude::*;

verus! {

/// The stage a fermentation batch is in.
#[derive(Clone, Copy, Debug, PartialEq, Eq, Structural)]
pub enum FermentationStage {
    /// The batch has just been created.
    Started,
    /// Primary fermentation.
    Primary,
    /// Secondary fermentation.
    Secondary,
    /// Aging.
    Aging,
    /// The process is complete.
    Completed,
}

/// The outcome of verifying a batch.
#[derive(Clone, Copy, Debug, PartialEq, Eq, Structural)]
pub enum VerificationResult {
    /// The verification passed.
    Passed,
    /// The verification failed.
    Failed,
    /// The verification waits for more data.
    Pending,
}

/// The post-quantum schemes the chain knows.
#[derive(Clone, Copy, Debug, PartialEq, Eq, Structural)]
pub enum QuantumAlgorithm {
    /// CRYSTALS-Dilithium signatures.
    Dilithium,
    /// CRYSTALS-Kyber key encapsulation.
    Kyber,
    /// Falcon signatures.
    Falcon,
}

/// The error correction a batch record asks for.
#[derive(Clone, Copy, Debug, PartialEq, Eq, Structural)]
pub enum ErrorCorrectionStrategy {
    /// The classical tier.
    Classical,
    /// The bridge tier.
    Bridge,
    /// The quantum tier.
    Quantum,
    /// All tiers.
    Comprehensive,
}

/// The place of a stage in the process, counted from zero.
pub open spec fn stage_rank(stage: FermentationStage) -> nat {
    match stage {
        FermentationStage::Started => 0,
        FermentationStage::Primary => 1,
        FermentationStage::Secondary => 2,
        FermentationStage::Aging => 3,
        FermentationStage::Completed => 4,
    }
}

/// Whether `next` is the stage that comes directly after `current`.
pub open spec fn follows(current: FermentationStage, next: FermentationStage) -> bool {
    stage_rank(next) == stage_rank(current) + 1
}

/// Checks whether a batch in stage `current` may move to stage `next`: only
/// to the stage that comes directly after its own.
pub fn is_valid_stage_transition(current: FermentationStage, next: FermentationStage) -> (valid:
    bool)
    ensures
        valid == follows(current, next),
{
    match (current, next) {
        (FermentationStage::Started, FermentationStage::Primary) => true,
        (FermentationStage::Primary, FermentationStage::Secondary) => true,
        (FermentationStage::Secondary, FermentationStage::Aging) => true,
        (FermentationStage::Aging, FermentationStage::Completed) => true,
        _ => false,
    }
}

/// Every stage but the last has exactly one stage to move to, the last has
/// none, and nothing moves back to the first.
pub proof fn lemma_stages_form_one_line(
    current: FermentationStage,
    first: FermentationStage,
    second: FermentationStage,
)
    ensures
        follows(current, first) && follows(current, second) ==> first == second,
        !follows(FermentationStage::Completed, first),
        !follows(first, FermentationStage::Started),
        !follows(current, current),
        current != FermentationStage::Completed ==> exists|next: FermentationStage|
            follows(current, next),
{
    match current {
        FermentationStage::Started => {
            assert(follows(current, FermentationStage::Primary));
        },
        FermentationStage::Primary => {
            assert(follows(current, FermentationStage::Secondary));
        },
        FermentationStage::Secondary => {
            assert(follows(current, FermentationStage::Aging));
        },
        FermentationStage::Aging => {
            assert(follows(current, FermentationStage::Completed));
        },
        FermentationStage::Completed => {},
    }
}

} // verus!
