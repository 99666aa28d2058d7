//! The verifier's structural checks, made before any pairing is computed:
//! malformed inputs are errors, distinct from a proof that is merely invalid.
use vstd::prelude::*;
use crate::error::SnarkError;
use crate::hash_bits::HASH_BITS;

verus! {

/// What the structural checks decide for `public_inputs` public inputs and a
/// verifying key holding `commitments` input commitments (one constant term
/// plus one per public input).
pub open spec fn shape_spec(public_inputs: nat, commitments: nat) -> Result<(), SnarkError> {
    if public_inputs != 256 {
        Err(SnarkError::PublicInputLength)
    } else if commitments != public_inputs + 1 {
        Err(SnarkError::KeyShape)
    } else {
        Ok(())
    }
}

/// Rejects any number of public inputs other than 256 with
/// `PublicInputLength`, then a key whose commitment count is not one more
/// than the number of public inputs with `KeyShape`.
pub fn check_verify_shape(public_inputs: usize, commitments: usize) -> (r: Result<(), SnarkError>)
    ensures
        r == shape_spec(public_inputs as nat, commitments as nat),
{
    if public_inputs != HASH_BITS {
        return Err(SnarkError::PublicInputLength);
    }
    if commitments != public_inputs + 1 {
        return Err(SnarkError::KeyShape);
    }
    Ok(())
}

} // verus!
