use vstd::prelude::*;

verus! {

/// Failures surfaced at the proving system's boundary.
#[derive(Debug, Clone, Copy, PartialEq, Eq, Structural)]
pub enum SnarkError {
    /// The supplied target hash disagrees with the PDQ state.
    HashMismatch,
    /// A coefficient's integer/float discrepancy exceeds the tolerance.
    ToleranceExceeded,
    /// Verification was given a number of public inputs other than 256.
    PublicInputLength,
    /// The verifying key's commitment length does not match the public inputs.
    KeyShape,
    /// The image bytes could not be decoded.
    ImageDecode,
    /// The proof system itself failed (setup, proving or key processing).
    Crypto,
}

} // verus!
