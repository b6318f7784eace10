//! What holds of the comprehensive composition and of every codec.

use vstd::prelude::*;
use super::bridge::{bridge_has_errors, bridge_well_formed, sealed_block};
use super::bridge_laws::lemma_bridge_round_trip;
use super::classical::classical_payload;
use super::classical_laws::lemma_classical_frame_shape;
use super::quantum::{quantum_payload, quantum_well_formed, QUANTUM_HEADER};
use super::quantum_laws::lemma_quantum_frame_shape;
use super::{
    comprehensive_has_errors, BridgeErrorCorrection, ClassicalErrorCorrection,
    ComprehensiveErrorCorrection, ErrorCorrection, ErrorCorrectionError, QuantumErrorCorrection,
};

verus! {

/// **Determinism.** A frame is a function of the codec's parameters and the
/// payload: codecs that are equal frame a payload alike.
pub proof fn lemma_frames_are_determined<C: ErrorCorrection>(
    first: C,
    second: C,
    payload: Seq<u8>,
)
    requires
        first == second,
    ensures
        first.frame_of(payload) == second.frame_of(payload),
{
}

/// **No empty frame.** Whatever the tier, the frame of a payload is longer
/// than the payload; in particular it is never empty.
pub proof fn lemma_frame_is_longer_than_payload(
    classical: ClassicalErrorCorrection,
    bridge: BridgeErrorCorrection,
    quantum: QuantumErrorCorrection,
    comprehensive: ComprehensiveErrorCorrection,
    payload: Seq<u8>,
)
    requires
        bridge.valid(),
        comprehensive.valid(),
    ensures
        classical.frame_of(payload).len() > payload.len(),
        bridge.frame_of(payload).len() > payload.len(),
        quantum.frame_of(payload).len() > payload.len(),
        comprehensive.frame_of(payload).len() > payload.len(),
{
    lemma_classical_frame_shape(payload, classical.percent());
    lemma_bridge_frame_is_longer(payload, bridge);
    lemma_quantum_frame_shape(payload, quantum.distance(), quantum.rounds());
    let inner = comprehensive.inner().frame_of(payload);
    let middle = comprehensive.middle().frame_of(inner);
    lemma_classical_frame_shape(payload, comprehensive.inner().percent());
    lemma_bridge_frame_is_longer(inner, comprehensive.middle());
    lemma_quantum_frame_shape(
        middle,
        comprehensive.outer().distance(),
        comprehensive.outer().rounds(),
    );
}

/// A bridge frame is longer than its payload.
proof fn lemma_bridge_frame_is_longer(payload: Seq<u8>, bridge: BridgeErrorCorrection)
    requires
        bridge.valid(),
    ensures
        bridge.frame_of(payload).len() > payload.len(),
{
    let block = sealed_block(payload);
    super::bridge_laws::lemma_repeated_len(block, bridge.redundancy() as nat);
}

/// **Composition.** Decoding undoes the three layers in the order opposite to
/// the one in which encoding applied them. So where the quantum tier hands
/// the bridge frame back as it was, and the classical tier its payload, the
/// composition hands back the payload; the bridge tier in between always does
/// its part.
pub proof fn lemma_comprehensive_round_trip(codec: ComprehensiveErrorCorrection, payload: Seq<u8>)
    requires
        payload.len() > 0,
        codec.valid(),
        classical_payload(codec.inner().frame_of(payload)) == Ok::<
            Seq<u8>,
            ErrorCorrectionError,
        >(payload),
        quantum_payload(
            codec.outer().frame_of(codec.middle().frame_of(codec.inner().frame_of(payload))),
        ) == Ok::<Seq<u8>, ErrorCorrectionError>(
            codec.middle().frame_of(codec.inner().frame_of(payload)),
        ),
    ensures
        codec.payload_of(codec.frame_of(payload)) == Ok::<Seq<u8>, ErrorCorrectionError>(
            payload,
        ),
{
    let innermost = codec.inner().frame_of(payload);
    lemma_bridge_round_trip(
        innermost,
        codec.middle().redundancy(),
        codec.middle().verification(),
    );
}

/// **Layer independence.** Whatever the bridge tier alone reads as damaged,
/// the composition reads as damaged; and likewise for the other two tiers.
pub proof fn lemma_damage_to_one_tier_shows(codec: ComprehensiveErrorCorrection, frame: Seq<u8>)
    ensures
        bridge_has_errors(frame) ==> codec.reads_damaged(frame),
        super::quantum::quantum_has_errors(frame) ==> codec.reads_damaged(frame),
        super::classical::classical_has_errors(frame) ==> codec.reads_damaged(frame),
{
}

/// The composition reads every frame as damaged. Each tier is shown the whole
/// frame, the quantum tier asks for a frame that begins with its header, the
/// bridge tier for one that begins with its own, and no frame begins with
/// both. So the check of the composition has one answer only.
pub proof fn lemma_comprehensive_reads_every_frame_damaged(frame: Seq<u8>)
    ensures
        comprehensive_has_errors(frame),
{
    if quantum_well_formed(frame) {
        assert(frame[0] == QUANTUM_HEADER);
        assert(!bridge_well_formed(frame));
    }
}

/// The composition never reads its own fresh frame as clean: each tier is
/// shown the whole frame, and the whole frame begins with the header of the
/// quantum tier, which is not the header that the bridge tier asks for.
pub proof fn lemma_comprehensive_fresh_frame_reads_damaged(
    codec: ComprehensiveErrorCorrection,
    payload: Seq<u8>,
)
    ensures
        codec.reads_damaged(codec.frame_of(payload)),
{
    let bridged = codec.middle().frame_of(codec.inner().frame_of(payload));
    lemma_quantum_frame_shape(bridged, codec.outer().distance(), codec.outer().rounds());
    assert(codec.frame_of(payload)[0] == QUANTUM_HEADER);
    assert(!bridge_well_formed(codec.frame_of(payload)));
}

/// What a frame decodes to, and whether it reads as damaged, is decided by the
/// frame alone, not by the codec that is asked.
pub proof fn lemma_comprehensive_frame_speaks_for_itself(
    first: ComprehensiveErrorCorrection,
    second: ComprehensiveErrorCorrection,
    frame: Seq<u8>,
)
    ensures
        first.payload_of(frame) == second.payload_of(frame),
        first.reads_damaged(frame) == second.reads_damaged(frame),
{
}

} // verus!
