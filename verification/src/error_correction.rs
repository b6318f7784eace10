//! Multi-tier error correction.
//!
//! Three independent tiers (classical, bridge, quantum) and a comprehensive
//! composition of all three share one interface, [`ErrorCorrection`]. Each tier
//! turns a payload into a self-describing frame and back.

use vstd::prelude::*;

pub mod bits;
pub mod bridge;
pub mod bridge_laws;
pub mod classical;
pub mod classical_laws;
pub mod laws;
pub mod quantum;
pub mod quantum_laws;

pub use bridge::BridgeErrorCorrection;
pub use classical::{ClassicalErrorCorrection, DEFAULT_CLASSICAL_REDUNDANCY};
pub use quantum::QuantumErrorCorrection;

use bridge::{bridge_has_errors, bridge_payload};
use classical::{classical_has_errors, classical_payload};
use quantum::{quantum_has_errors, quantum_payload};

verus! {

/// The tiers of protection a codec can offer.
#[derive(Clone, Copy, Debug, PartialEq, Eq, Structural)]
pub enum ErrorCorrectionType {
    /// Parity bytes appended to the payload.
    Classical,
    /// Repeated blocks with a checksum each, rebuilt by majority vote.
    Bridge,
    /// Syndrome bytes per chunk, bits corrected by syndrome majority.
    Quantum,
    /// All three tiers, one wrapped in the next.
    Comprehensive,
}

/// Why an operation of a codec failed.
#[derive(Clone, Copy, Debug, PartialEq, Eq, Structural)]
pub enum ErrorCorrectionError {
    /// So much redundancy was lost that nothing can be rebuilt.
    Uncorrectable,
    /// The input is empty, too short, or does not have the frame's shape.
    InvalidData,
    /// An internal consistency check failed.
    AlgorithmError,
    /// The requested tier is not known.
    UnsupportedType,
}

/// A result with its bytes seen as a sequence.
pub open spec fn seen(result: Result<Vec<u8>, ErrorCorrectionError>) -> Result<
    Seq<u8>,
    ErrorCorrectionError,
> {
    match result {
        Ok(bytes) => Ok(bytes@),
        Err(error) => Err(error),
    }
}

/// What every tier offers: framing a payload, recovering it, and checking a frame.
///
/// The four spec functions say what the four operations compute. A codec holds
/// only its parameters, so every operation is a function of its arguments and
/// those parameters.
pub trait ErrorCorrection {
    /// The frame that protects `payload`.
    spec fn frame_of(&self, payload: Seq<u8>) -> Seq<u8>;

    /// The payload that `frame` yields, or the reason it yields none.
    spec fn payload_of(&self, frame: Seq<u8>) -> Result<Seq<u8>, ErrorCorrectionError>;

    /// Whether `frame` reads as damaged.
    spec fn reads_damaged(&self, frame: Seq<u8>) -> bool;

    /// The tier of this codec.
    spec fn tier(&self) -> ErrorCorrectionType;

    /// Frames `data`. An empty payload is refused with `InvalidData`; every
    /// other payload is framed.
    fn encode(&self, data: &[u8]) -> (result: Result<Vec<u8>, ErrorCorrectionError>)
        ensures
            data@.len() == 0 ==> seen(result) == Err::<Seq<u8>, _>(
                ErrorCorrectionError::InvalidData,
            ),
            data@.len() > 0 ==> seen(result) == Ok::<_, ErrorCorrectionError>(
                self.frame_of(data@),
            ),
    ;

    /// Recovers the payload of the frame `data`, correcting what the tier can correct.
    fn decode(&self, data: &[u8]) -> (result: Result<Vec<u8>, ErrorCorrectionError>)
        ensures
            seen(result) == self.payload_of(data@),
    ;

    /// Reports whether the frame `data` reads as damaged.
    fn has_errors(&self, data: &[u8]) -> (damaged: bool)
        ensures
            damaged == self.reads_damaged(data@),
    ;

    /// The tier of this codec.
    fn correction_type(&self) -> (tier: ErrorCorrectionType)
        ensures
            tier == self.tier(),
    ;
}

/// What unwrapping all three layers of `frame` yields: the quantum layer
/// first, then the bridge layer, then the classical one. The first layer that
/// fails gives the error.
pub open spec fn comprehensive_payload(frame: Seq<u8>) -> Result<Seq<u8>, ErrorCorrectionError> {
    match quantum_payload(frame) {
        Err(error) => Err(error),
        Ok(bridged) => match bridge_payload(bridged) {
            Err(error) => Err(error),
            Ok(classical) => classical_payload(classical),
        },
    }
}

/// Whether any of the three tiers reads the whole of `frame` as damaged.
///
/// The quantum tier and the bridge tier ask for different first bytes, so one
/// of them always reads the frame as malformed: this holds of every frame
/// (`laws::lemma_comprehensive_reads_every_frame_damaged`).
pub open spec fn comprehensive_has_errors(frame: Seq<u8>) -> bool {
    quantum_has_errors(frame) || bridge_has_errors(frame) || classical_has_errors(frame)
}

/// Codec that applies all three tiers: classical innermost, quantum outermost.
#[derive(Clone, Copy, Debug)]
pub struct ComprehensiveErrorCorrection {
    classical: ClassicalErrorCorrection,
    bridge: BridgeErrorCorrection,
    quantum: QuantumErrorCorrection,
}

impl ComprehensiveErrorCorrection {
    /// The codec of the innermost layer.
    pub closed spec fn inner(self) -> ClassicalErrorCorrection {
        self.classical
    }

    /// The codec of the middle layer.
    pub closed spec fn middle(self) -> BridgeErrorCorrection {
        self.bridge
    }

    /// The codec of the outermost layer.
    pub closed spec fn outer(self) -> QuantumErrorCorrection {
        self.quantum
    }

    /// Whether the codecs of all three layers have valid parameters.
    pub open spec fn valid(self) -> bool {
        self.inner().valid() && self.middle().valid() && self.outer().valid()
    }

    /// A codec of all three tiers as they come by default: eight per cent of
    /// classical redundancy, three copies and two passes in the bridge tier,
    /// distance five and four rounds in the quantum tier.
    pub fn new() -> (codec: Self)
        ensures
            codec.inner().percent() == DEFAULT_CLASSICAL_REDUNDANCY,
            codec.middle().redundancy() == 3,
            codec.middle().verification() == 2,
            codec.outer().distance() == 5,
            codec.outer().rounds() == 4,
            codec.valid(),
    {
        Self {
            classical: ClassicalErrorCorrection::new(DEFAULT_CLASSICAL_REDUNDANCY),
            bridge: BridgeErrorCorrection::new(),
            quantum: QuantumErrorCorrection::new(),
        }
    }
}

impl ErrorCorrection for ComprehensiveErrorCorrection {
    open spec fn frame_of(&self, payload: Seq<u8>) -> Seq<u8> {
        self.outer().frame_of(self.middle().frame_of(self.inner().frame_of(payload)))
    }

    open spec fn payload_of(&self, frame: Seq<u8>) -> Result<Seq<u8>, ErrorCorrectionError> {
        comprehensive_payload(frame)
    }

    open spec fn reads_damaged(&self, frame: Seq<u8>) -> bool {
        comprehensive_has_errors(frame)
    }

    open spec fn tier(&self) -> ErrorCorrectionType {
        ErrorCorrectionType::Comprehensive
    }

    fn encode(&self, data: &[u8]) -> (result: Result<Vec<u8>, ErrorCorrectionError>) {
        let classical_encoded = match self.classical.encode(data) {
            Ok(frame) => frame,
            Err(error) => {
                return Err(error);
            },
        };
        let bridge_encoded = match self.bridge.encode(classical_encoded.as_slice()) {
            Ok(frame) => frame,
            Err(error) => {
                return Err(error);
            },
        };
        self.quantum.encode(bridge_encoded.as_slice())
    }

    fn decode(&self, data: &[u8]) -> (result: Result<Vec<u8>, ErrorCorrectionError>) {
        let quantum_decoded = match self.quantum.decode(data) {
            Ok(frame) => frame,
            Err(error) => {
                return Err(error);
            },
        };
        let bridge_decoded = match self.bridge.decode(quantum_decoded.as_slice()) {
            Ok(frame) => frame,
            Err(error) => {
                return Err(error);
            },
        };
        self.classical.decode(bridge_decoded.as_slice())
    }

    fn has_errors(&self, data: &[u8]) -> (damaged: bool) {
        self.quantum.has_errors(data) || self.bridge.has_errors(data) || self.classical.has_errors(
            data,
        )
    }

    fn correction_type(&self) -> (tier: ErrorCorrectionType) {
        ErrorCorrectionType::Comprehensive
    }
}

/// A codec of any one of the four tiers.
#[derive(Clone, Copy, Debug)]
pub enum Codec {
    /// A codec of the classical tier.
    Classical(ClassicalErrorCorrection),
    /// A codec of the bridge tier.
    Bridge(BridgeErrorCorrection),
    /// A codec of the quantum tier.
    Quantum(QuantumErrorCorrection),
    /// A codec of all three tiers.
    Comprehensive(ComprehensiveErrorCorrection),
}

impl ErrorCorrection for Codec {
    open spec fn frame_of(&self, payload: Seq<u8>) -> Seq<u8> {
        match self {
            Codec::Classical(codec) => codec.frame_of(payload),
            Codec::Bridge(codec) => codec.frame_of(payload),
            Codec::Quantum(codec) => codec.frame_of(payload),
            Codec::Comprehensive(codec) => codec.frame_of(payload),
        }
    }

    open spec fn payload_of(&self, frame: Seq<u8>) -> Result<Seq<u8>, ErrorCorrectionError> {
        match self {
            Codec::Classical(codec) => codec.payload_of(frame),
            Codec::Bridge(codec) => codec.payload_of(frame),
            Codec::Quantum(codec) => codec.payload_of(frame),
            Codec::Comprehensive(codec) => codec.payload_of(frame),
        }
    }

    open spec fn reads_damaged(&self, frame: Seq<u8>) -> bool {
        match self {
            Codec::Classical(codec) => codec.reads_damaged(frame),
            Codec::Bridge(codec) => codec.reads_damaged(frame),
            Codec::Quantum(codec) => codec.reads_damaged(frame),
            Codec::Comprehensive(codec) => codec.reads_damaged(frame),
        }
    }

    open spec fn tier(&self) -> ErrorCorrectionType {
        match self {
            Codec::Classical(_) => ErrorCorrectionType::Classical,
            Codec::Bridge(_) => ErrorCorrectionType::Bridge,
            Codec::Quantum(_) => ErrorCorrectionType::Quantum,
            Codec::Comprehensive(_) => ErrorCorrectionType::Comprehensive,
        }
    }

    fn encode(&self, data: &[u8]) -> (result: Result<Vec<u8>, ErrorCorrectionError>) {
        match self {
            Codec::Classical(codec) => codec.encode(data),
            Codec::Bridge(codec) => codec.encode(data),
            Codec::Quantum(codec) => codec.encode(data),
            Codec::Comprehensive(codec) => codec.encode(data),
        }
    }

    fn decode(&self, data: &[u8]) -> (result: Result<Vec<u8>, ErrorCorrectionError>) {
        match self {
            Codec::Classical(codec) => codec.decode(data),
            Codec::Bridge(codec) => codec.decode(data),
            Codec::Quantum(codec) => codec.decode(data),
            Codec::Comprehensive(codec) => codec.decode(data),
        }
    }

    fn has_errors(&self, data: &[u8]) -> (damaged: bool) {
        match self {
            Codec::Classical(codec) => codec.has_errors(data),
            Codec::Bridge(codec) => codec.has_errors(data),
            Codec::Quantum(codec) => codec.has_errors(data),
            Codec::Comprehensive(codec) => codec.has_errors(data),
        }
    }

    fn correction_type(&self) -> (tier: ErrorCorrectionType) {
        match self {
            Codec::Classical(codec) => codec.correction_type(),
            Codec::Bridge(codec) => codec.correction_type(),
            Codec::Quantum(codec) => codec.correction_type(),
            Codec::Comprehensive(codec) => codec.correction_type(),
        }
    }
}

/// Whether `codec` is the codec that the factory makes for `tier`: eight per
/// cent for the classical tier, three copies and two passes for the bridge
/// tier, distance five and four rounds for the quantum tier, and for the
/// comprehensive tier all three layers with these same parameters.
pub open spec fn made_for(codec: Codec, tier: ErrorCorrectionType) -> bool {
    match tier {
        ErrorCorrectionType::Classical => codec matches Codec::Classical(inner)
            && inner.percent() == DEFAULT_CLASSICAL_REDUNDANCY,
        ErrorCorrectionType::Bridge => codec matches Codec::Bridge(inner) && inner.redundancy()
            == 3 && inner.verification() == 2,
        ErrorCorrectionType::Quantum => codec matches Codec::Quantum(inner) && inner.distance()
            == 5 && inner.rounds() == 4,
        ErrorCorrectionType::Comprehensive => codec matches Codec::Comprehensive(all)
            && all.inner().percent() == DEFAULT_CLASSICAL_REDUNDANCY
            && all.middle().redundancy() == 3 && all.middle().verification() == 2
            && all.outer().distance() == 5 && all.outer().rounds() == 4,
    }
}

/// Makes the codec of the requested tier, with that tier's default parameters.
pub fn create_error_correction(correction_type: ErrorCorrectionType) -> (codec: Codec)
    ensures
        made_for(codec, correction_type),
        codec.tier() == correction_type,
{
    match correction_type {
        ErrorCorrectionType::Classical => Codec::Classical(
            ClassicalErrorCorrection::new(DEFAULT_CLASSICAL_REDUNDANCY),
        ),
        ErrorCorrectionType::Bridge => Codec::Bridge(BridgeErrorCorrection::new()),
        ErrorCorrectionType::Quantum => Codec::Quantum(QuantumErrorCorrection::new()),
        ErrorCorrectionType::Comprehensive => Codec::Comprehensive(
            ComprehensiveErrorCorrection::new(),
        ),
    }
}

} // verus!
