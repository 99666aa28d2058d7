use pdqsnark::error::SnarkError;
use pdqsnark::fixed_dct::{compute_dct_fixed, CORRECTION_TOLERANCE, DCT_SCALE, PIXEL_BOUND};
use pdqsnark::hash_bits::{bits_to_hash, hash_to_bits};
use pdqsnark::shape::check_verify_shape;
use pdqsnark::witness::build_witness;

/// Kernel whose row `r` picks column `r`: the DCT then returns the top-left
/// 16x16 block of the buffer unchanged.
fn selector_kernel() -> Vec<i64> {
    let mut k = vec![0i64; 16 * 64];
    for r in 0..16 {
        k[r * 64 + r] = 1;
    }
    k
}

fn sample_hash() -> [u8; 32] {
    let mut h = [0u8; 32];
    for (i, b) in h.iter_mut().enumerate() {
        *b = (i as u8).wrapping_mul(37).wrapping_add(11);
    }
    h
}

#[test]
fn bits_follow_reverse_byte_lsb_first_order() {
    let mut h = [0u8; 32];
    h[31] = 0b0000_0101;
    h[0] = 0b1000_0000;
    let bits = hash_to_bits(&h);
    assert_eq!(bits.len(), 256);
    assert!(bits[0]);
    assert!(!bits[1]);
    assert!(bits[2]);
    assert!(bits[255]);
    assert_eq!(bits.iter().filter(|b| **b).count(), 3);
}

#[test]
fn bit_packing_round_trip() {
    let h = sample_hash();
    assert_eq!(bits_to_hash(&hash_to_bits(&h)), h);
    let mut bits = vec![false; 256];
    bits[0] = true;
    bits[9] = true;
    bits[255] = true;
    let packed = bits_to_hash(&bits);
    assert_eq!(packed[31], 0b0000_0001);
    assert_eq!(packed[30], 0b0000_0010);
    assert_eq!(packed[0], 0b1000_0000);
    assert_eq!(hash_to_bits(&packed), bits);
}

#[test]
fn dct_with_selector_kernel_returns_top_left_block() {
    let pixels: Vec<i64> = (0..4096).map(|i| i as i64 - 2048).collect();
    let out = compute_dct_fixed(&selector_kernel(), &pixels);
    assert_eq!(out.len(), 256);
    for r in 0..16 {
        for c in 0..16 {
            assert_eq!(out[r * 16 + c], pixels[r * 64 + c]);
        }
    }
}

#[test]
fn dct_at_largest_magnitudes_reaches_two_to_sixty() {
    let kernel = vec![DCT_SCALE; 1024];
    let pixels = vec![PIXEL_BOUND; 4096];
    let out = compute_dct_fixed(&kernel, &pixels);
    assert!(out.iter().all(|v| *v == 1i64 << 60));
    let negative = vec![-PIXEL_BOUND; 4096];
    let out = compute_dct_fixed(&kernel, &negative);
    assert!(out.iter().all(|v| *v == -(1i64 << 60)));
}

#[test]
fn dct_small_exact_value() {
    // K[r][k] = r + k - 40 and p = 1 on row 0, zero elsewhere:
    // M[r][c] = K[r][0]; D[r][c] = K[r][0] * sum_k K[c][k].
    let mut kernel = vec![0i64; 1024];
    for r in 0..16 {
        for k in 0..64 {
            kernel[r * 64 + k] = r as i64 + k as i64 - 40;
        }
    }
    let mut pixels = vec![0i64; 4096];
    for c in 0..64 {
        pixels[c] = 1;
    }
    let out = compute_dct_fixed(&kernel, &pixels);
    // r = 1, c = 2: K[1][0] = -39; sum_k (2 + k - 40) = 64 * -38 + 2016 = -416.
    assert_eq!(out[1 * 16 + 2], -39 * -416);
}

#[test]
fn witness_splits_differences_and_slack() {
    let pixels = vec![0i64; 4096];
    let mut fds = vec![0i64; 256];
    fds[0] = 5;
    fds[1] = -3;
    fds[2] = CORRECTION_TOLERANCE as i64;
    let h = sample_hash();
    let w = build_witness(&selector_kernel(), pixels.clone(), 0, fds.clone(), h, h).unwrap();
    assert_eq!(w.hash, h);
    assert_eq!(w.median, 0);
    assert_eq!(w.pixels, pixels);
    assert_eq!(w.float_diffs, fds);
    assert_eq!((w.pos_diffs[0], w.neg_diffs[0]), (5, 0));
    assert_eq!((w.pos_diffs[1], w.neg_diffs[1]), (0, 3));
    assert_eq!((w.pos_diffs[3], w.neg_diffs[3]), (0, 0));
    // delta = dct - median - fd = -fd here.
    assert_eq!((w.corr_pos[0], w.corr_neg[0]), (0, 5));
    assert_eq!((w.corr_pos[1], w.corr_neg[1]), (3, 0));
    assert_eq!((w.corr_pos[2], w.corr_neg[2]), (0, 1i64 << 46));
}

#[test]
fn witness_uses_the_integer_dct_and_median() {
    let mut pixels = vec![0i64; 4096];
    pixels[0] = 100;
    let mut fds = vec![0i64; 256];
    fds[0] = 90;
    let h = sample_hash();
    let w = build_witness(&selector_kernel(), pixels, 7, fds, h, h).unwrap();
    // delta_0 = 100 - 7 - 90 = 3; delta_1 = 0 - 7 - 0 = -7.
    assert_eq!((w.corr_pos[0], w.corr_neg[0]), (3, 0));
    assert_eq!((w.corr_pos[1], w.corr_neg[1]), (0, 7));
}

#[test]
fn witness_build_is_deterministic() {
    let pixels: Vec<i64> = (0..4096).map(|i| (i % 97) as i64).collect();
    let fds: Vec<i64> = (0..256).map(|i| i as i64 - 128).collect();
    let h = sample_hash();
    let a = build_witness(&selector_kernel(), pixels.clone(), 3, fds.clone(), h, h).unwrap();
    let b = build_witness(&selector_kernel(), pixels, 3, fds, h, h).unwrap();
    assert_eq!(a.pos_diffs, b.pos_diffs);
    assert_eq!(a.neg_diffs, b.neg_diffs);
    assert_eq!(a.corr_pos, b.corr_pos);
    assert_eq!(a.corr_neg, b.corr_neg);
    assert_eq!(a.float_diffs, b.float_diffs);
}

#[test]
fn altered_target_hash_is_hash_mismatch() {
    let h = sample_hash();
    let mut target = h;
    target[31] ^= 1;
    let r = build_witness(&selector_kernel(), vec![0; 4096], 0, vec![0; 256], h, target);
    assert_eq!(r.err(), Some(SnarkError::HashMismatch));
}

#[test]
fn slack_beyond_tolerance_is_rejected() {
    let h = sample_hash();
    let mut fds = vec![0i64; 256];
    fds[200] = CORRECTION_TOLERANCE as i64 + 1;
    let r = build_witness(&selector_kernel(), vec![0; 4096], 0, fds, h, h);
    assert_eq!(r.err(), Some(SnarkError::ToleranceExceeded));
    let mut fds = vec![0i64; 256];
    fds[5] = -(CORRECTION_TOLERANCE as i64) - 1;
    let r = build_witness(&selector_kernel(), vec![0; 4096], 0, fds, h, h);
    assert_eq!(r.err(), Some(SnarkError::ToleranceExceeded));
}

#[test]
fn hash_mismatch_takes_precedence_over_tolerance() {
    let h = sample_hash();
    let mut fds = vec![0i64; 256];
    fds[0] = i64::MAX;
    let r = build_witness(&selector_kernel(), vec![0; 4096], 0, fds, h, [0u8; 32]);
    assert_eq!(r.err(), Some(SnarkError::HashMismatch));
}

#[test]
fn truncated_public_inputs_are_rejected() {
    assert_eq!(check_verify_shape(255, 256), Err(SnarkError::PublicInputLength));
    assert_eq!(check_verify_shape(257, 258), Err(SnarkError::PublicInputLength));
    assert_eq!(check_verify_shape(0, 1), Err(SnarkError::PublicInputLength));
}

#[test]
fn mismatched_key_is_key_shape() {
    assert_eq!(check_verify_shape(256, 2), Err(SnarkError::KeyShape));
    assert_eq!(check_verify_shape(256, 256), Err(SnarkError::KeyShape));
    assert_eq!(check_verify_shape(256, 257), Ok(()));
}
