//! The pass-through stage in front of a quantum link.
//!
//! Data is handed on as it is; a transmission counts as good when what
//! arrived is what was sent.

use vstd::prelude::*;
use crate::bytes::copy_of;

verus! {

/// The parameters of the stage.
pub struct BridgeErrorCorrection {
    redundancy_factor: u32,
    verification_rounds: u32,
}

impl BridgeErrorCorrection {
    /// The redundancy factor this stage was made with.
    pub closed spec fn factor(self) -> u32 {
        self.redundancy_factor
    }

    /// The number of verification rounds this stage was made with.
    pub closed spec fn passes(self) -> u32 {
        self.verification_rounds
    }

    /// A stage with the given parameters.
    pub fn new(redundancy_factor: u32, verification_rounds: u32) -> (stage: Self)
        ensures
            stage.factor() == redundancy_factor,
            stage.passes() == verification_rounds,
    {
        BridgeErrorCorrection { redundancy_factor, verification_rounds }
    }

    /// Prepares `data` for transmission: a copy of it.
    pub fn encode_for_quantum_transmission(&self, data: &[u8]) -> (out: Vec<u8>)
        ensures
            out@ == data@,
    {
        let out = copy_of(data, data.len());
        assert(data@.take(data@.len() as int) =~= data@);
        out
    }

    /// Takes `data` as it arrived: a copy of it. This never fails.
    pub fn decode_from_quantum_transmission(&self, data: &[u8]) -> (result: Result<
        Vec<u8>,
        String,
    >)
        ensures
            result matches Ok(out) && out@ == data@,
    {
        let out = copy_of(data, data.len());
        assert(data@.take(data@.len() as int) =~= data@);
        Ok(out)
    }

    /// Tells whether `received` is byte for byte what was sent.
    pub fn verify_transmission(&self, sent: &[u8], received: &[u8]) -> (same: bool)
        ensures
            same == (sent@ == received@),
    {
        if sent.len() != received.len() {
            return false;
        }
        let mut i: usize = 0;
        while i < sent.len()
            invariant
                sent@.len() == received@.len(),
                i <= sent@.len(),
                forall|at: int| 0 <= at < i ==> sent@[at] == received@[at],
            decreases sent@.len() - i,
        {
            if sent[i] != received[i] {
                return false;
            }
            i += 1;
        }
        assert(sent@ =~= received@);
        true
    }
}

} // verus!
