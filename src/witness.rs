//! The witness builder: from the collaborator's PDQ state, every private
//! value the circuit needs, and the algebra of the per-coefficient gadgets
//! those values must satisfy.
use vstd::prelude::*;
use crate::error::SnarkError;
use crate::fixed_dct::{
    CORRECTION_TOLERANCE, DCT_VALUE_COUNT, compute_dct_fixed, dct_spec, kernel_ok, pixels_ok,
};
use crate::hash_bits::{hash_bit, hash_bits_spec, lemma_pack_unpack};

verus! {

/// `2^46`: corrections are range-checked to 46 bits, so lie below this.
pub open spec fn correction_range() -> int {
    0x4000_0000_0000
}

/// `integer_diff_i - float_diff_i`: how far the integer pipeline lands from
/// the float reference on coefficient `i`.
pub open spec fn delta_spec(
    kernel: Seq<i64>,
    pixels: Seq<i64>,
    median: i64,
    float_diffs: Seq<i64>,
    i: int,
) -> int {
    dct_spec(kernel, pixels)[i] - median - float_diffs[i]
}

pub open spec fn abs(x: int) -> int {
    if x >= 0 {
        x
    } else {
        -x
    }
}

/// Every coefficient's discrepancy is within `CORRECTION_TOLERANCE`.
pub open spec fn within_tolerance(
    kernel: Seq<i64>,
    pixels: Seq<i64>,
    median: i64,
    float_diffs: Seq<i64>,
) -> bool {
    forall|i: int|
        0 <= i < 256 ==> abs(#[trigger] delta_spec(kernel, pixels, median, float_diffs, i))
            <= CORRECTION_TOLERANCE
}

/// The circuit's private values, less the field inverses.
pub struct Witness {
    /// Quantised buffer, row-major.
    pub pixels: Vec<i64>,
    /// Fixed-point median.
    pub median: i64,
    /// The public hash.
    pub hash: [u8; 32],
    /// Positive parts of the scaled float differences.
    pub pos_diffs: Vec<i64>,
    /// Negative parts of the scaled float differences.
    pub neg_diffs: Vec<i64>,
    /// Scaled float differences `round((dct_i - median) * FINAL_SCALE)`.
    pub float_diffs: Vec<i64>,
    /// Positive rounding slack.
    pub corr_pos: Vec<i64>,
    /// Negative rounding slack.
    pub corr_neg: Vec<i64>,
}

/// `x` when positive, else 0.
pub open spec fn pos_part(x: int) -> int {
    if x > 0 {
        x
    } else {
        0
    }
}

/// `-x` when negative, else 0.
pub open spec fn neg_part(x: int) -> int {
    if x > 0 {
        0
    } else {
        -x
    }
}

/// `w` is the witness built from this state: the inputs carried over, the
/// float difference split into its positive and negative parts, and the
/// discrepancy split into its positive and negative parts.
pub open spec fn witness_for(
    w: Witness,
    kernel: Seq<i64>,
    pixels: Seq<i64>,
    median: i64,
    float_diffs: Seq<i64>,
    hash: Seq<u8>,
) -> bool {
    &&& w.pixels@ == pixels
    &&& w.median == median
    &&& w.hash@ == hash
    &&& w.float_diffs@ == float_diffs
    &&& w.pos_diffs@.len() == 256
    &&& w.neg_diffs@.len() == 256
    &&& w.corr_pos@.len() == 256
    &&& w.corr_neg@.len() == 256
    &&& forall|i: int| 0 <= i < 256 ==> #[trigger] w.pos_diffs@[i] == pos_part(float_diffs[i] as int)
    &&& forall|i: int| 0 <= i < 256 ==> #[trigger] w.neg_diffs@[i] == neg_part(float_diffs[i] as int)
    &&& forall|i: int|
        0 <= i < 256 ==> #[trigger] w.corr_pos@[i] == pos_part(
            delta_spec(kernel, pixels, median, float_diffs, i),
        )
    &&& forall|i: int|
        0 <= i < 256 ==> #[trigger] w.corr_neg@[i] == neg_part(
            delta_spec(kernel, pixels, median, float_diffs, i),
        )
}

fn hashes_equal(a: &[u8; 32], b: &[u8; 32]) -> (r: bool)
    ensures
        r == (a@ == b@),
{
    let mut i: usize = 0;
    while i < 32
        invariant
            i <= 32,
            a@.len() == 32,
            b@.len() == 32,
            forall|j: int| 0 <= j < i ==> a@[j] == b@[j],
        decreases 32 - i,
    {
        if a[i] != b[i] {
            return false;
        }
        i = i + 1;
    }
    assert(a@ =~= b@);
    true
}

/// Builds the witness for the collaborator's state: the quantised `pixels`,
/// the fixed-point `median`, the scaled float differences and the hash the
/// collaborator computed, against the `target_hash` to be proved.
///
/// Fails with `HashMismatch` exactly when the two hashes differ, and
/// otherwise with `ToleranceExceeded` exactly when some coefficient's
/// discrepancy exceeds `CORRECTION_TOLERANCE`.
pub fn build_witness(
    kernel: &[i64],
    pixels: Vec<i64>,
    median: i64,
    float_diffs: Vec<i64>,
    state_hash: [u8; 32],
    target_hash: [u8; 32],
) -> (r: Result<Witness, SnarkError>)
    requires
        kernel_ok(kernel@),
        pixels_ok(pixels@),
        float_diffs@.len() == DCT_VALUE_COUNT,
        forall|i: int| 0 <= i < 256 ==> #[trigger] float_diffs@[i] > i64::MIN,
    ensures
        state_hash@ != target_hash@ <==> r == Err::<Witness, SnarkError>(SnarkError::HashMismatch),
        state_hash@ == target_hash@ ==> (r == Err::<Witness, SnarkError>(
            SnarkError::ToleranceExceeded) <==> !within_tolerance(
            kernel@,
            pixels@,
            median,
            float_diffs@,
        )),
        r is Ok <==> (state_hash@ == target_hash@ && within_tolerance(
            kernel@,
            pixels@,
            median,
            float_diffs@,
        )),
        r is Ok ==> witness_for(
            r->Ok_0,
            kernel@,
            pixels@,
            median,
            float_diffs@,
            target_hash@,
        ),
{
    let dct = compute_dct_fixed(kernel, pixels.as_slice());
    if !hashes_equal(&state_hash, &target_hash) {
        return Err(SnarkError::HashMismatch);
    }
    let mut pos: Vec<i64> = Vec::new();
    let mut neg: Vec<i64> = Vec::new();
    let mut corr_pos: Vec<i64> = Vec::new();
    let mut corr_neg: Vec<i64> = Vec::new();
    let mut i: usize = 0;
    while i < DCT_VALUE_COUNT
        invariant
            kernel_ok(kernel@),
            pixels_ok(pixels@),
            float_diffs@.len() == 256,
            state_hash@ == target_hash@,
            forall|j: int| 0 <= j < 256 ==> #[trigger] float_diffs@[j] > i64::MIN,
            dct@.len() == 256,
            forall|j: int| 0 <= j < 256 ==> #[trigger] dct@[j] as int == dct_spec(kernel@, pixels@)[j],
            i <= 256,
            pos@.len() == i,
            neg@.len() == i,
            corr_pos@.len() == i,
            corr_neg@.len() == i,
            forall|j: int|
                0 <= j < i ==> abs(#[trigger] delta_spec(kernel@, pixels@, median, float_diffs@, j))
                    <= CORRECTION_TOLERANCE,
            forall|j: int| 0 <= j < i ==> #[trigger] pos@[j] == pos_part(float_diffs@[j] as int),
            forall|j: int| 0 <= j < i ==> #[trigger] neg@[j] == neg_part(float_diffs@[j] as int),
            forall|j: int|
                0 <= j < i ==> #[trigger] corr_pos@[j] == pos_part(
                    delta_spec(kernel@, pixels@, median, float_diffs@, j),
                ),
            forall|j: int|
                0 <= j < i ==> #[trigger] corr_neg@[j] == neg_part(
                    delta_spec(kernel@, pixels@, median, float_diffs@, j),
                ),
        decreases 256 - i,
    {
        let float_scaled = float_diffs[i];
        let delta: i128 = dct[i] as i128 - median as i128 - float_scaled as i128;
        assert(delta == delta_spec(kernel@, pixels@, median, float_diffs@, i as int));
        if delta > CORRECTION_TOLERANCE || delta < -CORRECTION_TOLERANCE {
            return Err(SnarkError::ToleranceExceeded);
        }
        if delta >= 0 {
            corr_pos.push(delta as i64);
            corr_neg.push(0);
        } else {
            corr_pos.push(0);
            corr_neg.push((-delta) as i64);
        }
        if float_scaled > 0 {
            pos.push(float_scaled);
            neg.push(0);
        } else {
            pos.push(0);
            neg.push(-float_scaled);
        }
        i = i + 1;
    }
    let w = Witness {
        pixels,
        median,
        hash: target_hash,
        pos_diffs: pos,
        neg_diffs: neg,
        float_diffs,
        corr_pos,
        corr_neg,
    };
    Ok(w)
}

// ---------------------------------------------------------------------------
// Gadget algebra

/// The sign gadget on one coefficient, read over the integers with the
/// declared ranges `pos, neg >= 0`:
/// `pos - neg = fd`, `pos * neg = 0`, `bit * neg = 0`, `(1 - bit) * pos = 0`,
/// and `bit * (fd * inv - 1) = 0`, which an inverse `inv` can meet when
/// `bit = 1` only if `fd != 0`.
pub open spec fn sign_gadget(bit: bool, fd: int, pos: int, neg: int) -> bool {
    &&& pos >= 0
    &&& neg >= 0
    &&& pos - neg == fd
    &&& pos * neg == 0
    &&& (bit ==> neg == 0)
    &&& (!bit ==> pos == 0)
    &&& (bit ==> fd != 0)
}

/// The rounding-reconciliation gadget on one coefficient: both corrections
/// range-checked to 46 bits, `int_diff - fd = corr_pos - corr_neg` and
/// `corr_pos * corr_neg = 0`.
pub open spec fn reconcile_gadget(int_diff: int, fd: int, cp: int, cn: int) -> bool {
    &&& 0 <= cp < correction_range()
    &&& 0 <= cn < correction_range()
    &&& int_diff - fd == cp - cn
    &&& cp * cn == 0
}

/// The witness `w` satisfies every per-coefficient gadget of the circuit for
/// the public hash `hash`, the DCT being computed from `w`'s pixels.
pub open spec fn circuit_holds(kernel: Seq<i64>, hash: Seq<u8>, w: Witness) -> bool {
    &&& w.float_diffs@.len() == 256
    &&& w.pos_diffs@.len() == 256
    &&& w.neg_diffs@.len() == 256
    &&& w.corr_pos@.len() == 256
    &&& w.corr_neg@.len() == 256
    &&& forall|i: int|
        0 <= i < 256 ==> sign_gadget(
            hash_bit(hash, i),
            #[trigger] w.float_diffs@[i] as int,
            w.pos_diffs@[i] as int,
            w.neg_diffs@[i] as int,
        )
    &&& forall|i: int|
        0 <= i < 256 ==> reconcile_gadget(
            dct_spec(kernel, w.pixels@)[i] - w.median,
            #[trigger] w.float_diffs@[i] as int,
            w.corr_pos@[i] as int,
            w.corr_neg@[i] as int,
        )
}

/// The bits the float differences of `w` give: bit `i` is set exactly when
/// `float_diff_i > 0`.
pub open spec fn sign_bits(w: Witness) -> Seq<bool> {
    Seq::new(256, |i: int| w.float_diffs@[i] > 0)
}

/// Sign agreement: wherever the sign gadget holds, the hash bit is 1 exactly
/// when the float difference is positive.
pub proof fn lemma_sign_agreement(bit: bool, fd: int, pos: int, neg: int)
    requires
        sign_gadget(bit, fd, pos, neg),
    ensures
        bit <==> fd > 0,
{
}

/// A witness that satisfies the circuit fixes the public hash: it is the
/// packing of the witness's sign bits. So no witness satisfies the circuit
/// for two different hashes.
pub proof fn lemma_circuit_fixes_hash(kernel: Seq<i64>, hash: Seq<u8>, w: Witness)
    requires
        hash.len() == 32,
        circuit_holds(kernel, hash, w),
    ensures
        hash == crate::hash_bits::pack_bits_spec(sign_bits(w)),
{
    assert forall|i: int| 0 <= i < 256 implies #[trigger] hash_bits_spec(hash)[i] == sign_bits(
        w,
    )[i] by {
        lemma_sign_agreement(
            hash_bit(hash, i),
            w.float_diffs@[i] as int,
            w.pos_diffs@[i] as int,
            w.neg_diffs@[i] as int,
        );
    }
    assert(hash_bits_spec(hash) =~= sign_bits(w));
    lemma_pack_unpack(hash);
}

/// Completeness: the witness built from a state whose hash bits agree with
/// the signs of the float differences, and whose discrepancies lie strictly
/// inside the 46-bit range, satisfies the circuit.
pub proof fn lemma_built_witness_satisfies(
    w: Witness,
    kernel: Seq<i64>,
    pixels: Seq<i64>,
    median: i64,
    float_diffs: Seq<i64>,
    hash: Seq<u8>,
)
    requires
        witness_for(w, kernel, pixels, median, float_diffs, hash),
        float_diffs.len() == 256,
        forall|i: int| 0 <= i < 256 ==> #[trigger] hash_bit(hash, i) == (float_diffs[i] > 0),
        forall|i: int|
            0 <= i < 256 ==> abs(#[trigger] delta_spec(kernel, pixels, median, float_diffs, i))
                < correction_range(),
    ensures
        circuit_holds(kernel, hash, w),
{
    assert forall|i: int| 0 <= i < 256 implies sign_gadget(
        hash_bit(hash, i),
        #[trigger] w.float_diffs@[i] as int,
        w.pos_diffs@[i] as int,
        w.neg_diffs@[i] as int,
    ) by {
        assert(hash_bit(hash, i) == (float_diffs[i] > 0));
    }
    assert forall|i: int| 0 <= i < 256 implies reconcile_gadget(
        dct_spec(kernel, w.pixels@)[i] - w.median,
        #[trigger] w.float_diffs@[i] as int,
        w.corr_pos@[i] as int,
        w.corr_neg@[i] as int,
    ) by {
        assert(abs(delta_spec(kernel, pixels, median, float_diffs, i)) < correction_range());
    }
}

/// Determinism: two witnesses built from the same state are equal, field by
/// field.
pub proof fn lemma_witness_deterministic(
    w1: Witness,
    w2: Witness,
    kernel: Seq<i64>,
    pixels: Seq<i64>,
    median: i64,
    float_diffs: Seq<i64>,
    hash: Seq<u8>,
)
    requires
        witness_for(w1, kernel, pixels, median, float_diffs, hash),
        witness_for(w2, kernel, pixels, median, float_diffs, hash),
    ensures
        w1.pixels@ == w2.pixels@,
        w1.median == w2.median,
        w1.hash@ == w2.hash@,
        w1.float_diffs@ == w2.float_diffs@,
        w1.pos_diffs@ == w2.pos_diffs@,
        w1.neg_diffs@ == w2.neg_diffs@,
        w1.corr_pos@ == w2.corr_pos@,
        w1.corr_neg@ == w2.corr_neg@,
{
    assert(w1.pos_diffs@ =~= w2.pos_diffs@);
    assert(w1.neg_diffs@ =~= w2.neg_diffs@);
    assert(w1.corr_pos@ =~= w2.corr_pos@);
    assert(w1.corr_neg@ =~= w2.corr_neg@);
}

/// The slack cannot flip a sign: where the circuit holds, every coefficient
/// whose integer difference from the median is at least `2^46` in magnitude
/// has its hash bit set exactly when that difference is positive.
pub proof fn lemma_slack_cannot_flip_sign(kernel: Seq<i64>, hash: Seq<u8>, w: Witness, i: int)
    requires
        circuit_holds(kernel, hash, w),
        0 <= i < 256,
        abs(dct_spec(kernel, w.pixels@)[i] - w.median) >= correction_range(),
    ensures
        hash_bit(hash, i) <==> dct_spec(kernel, w.pixels@)[i] - w.median > 0,
{
    let fd = w.float_diffs@[i] as int;
    lemma_sign_agreement(hash_bit(hash, i), fd, w.pos_diffs@[i] as int, w.neg_diffs@[i] as int);
    assert(reconcile_gadget(
        dct_spec(kernel, w.pixels@)[i] - w.median,
        fd,
        w.corr_pos@[i] as int,
        w.corr_neg@[i] as int,
    ));
}

} // verus!
