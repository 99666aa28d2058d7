use pdqsnark::arith::{mod_add, mod_mul, mod_sub};
use pdqsnark::regime_a::{
    client_submit, server_verify_and_decide, RegimeAParams, ServerDecision, TtpSetup,
    DEFAULT_GENERATOR, DEFAULT_PRIME,
};
use pdqsnark::xorshift::XorShift64;

#[test]
fn regime_a_yes_for_close_neighbor() {
    let params = RegimeAParams::new(8, 4, 3);
    let db = vec![vec![0; params.lambda()], vec![1; params.lambda()]];
    let setup = TtpSetup::setup(db, params.clone(), 7);

    let mut query = vec![0; params.lambda()];
    query[0] = 1;
    query[9] = 1;

    let submission = client_submit(&setup, query, 42);
    assert_eq!(
        server_verify_and_decide(&setup, &submission),
        Some(ServerDecision::Yes)
    );
}

#[test]
fn regime_a_no_when_every_chunk_far() {
    let params = RegimeAParams::new(8, 4, 3);
    let db = vec![vec![0; params.lambda()]];
    let setup = TtpSetup::setup(db, params.clone(), 9);
    let query = vec![1; params.lambda()];

    let submission = client_submit(&setup, query, 11);
    assert_eq!(
        server_verify_and_decide(&setup, &submission),
        Some(ServerDecision::No)
    );
}

#[test]
fn params_defaults_and_lambda() {
    let params = RegimeAParams::new(8, 4, 3);
    assert_eq!(params.p, DEFAULT_PRIME);
    assert_eq!(params.g, DEFAULT_GENERATOR);
    assert_eq!(params.lambda(), 32);
}

#[test]
fn modular_arithmetic_values() {
    let p = DEFAULT_PRIME;
    assert_eq!(mod_add(p - 1, 5, p), 4);
    assert_eq!(mod_add(2, 3, 7), 5);
    assert_eq!(mod_sub(3, 5, 7), 5);
    assert_eq!(mod_sub(9, 4, 7), 5);
    assert_eq!(mod_sub(0, p - 1, p), 1);
    assert_eq!(mod_mul(p - 1, p - 1, p), 1);
    assert_eq!(mod_mul(6, 7, 10), 2);
}

#[test]
fn xorshift_known_values() {
    let mut zero = XorShift64::new(0);
    assert_eq!(zero.state, 0x9e3779b97f4a7c15);
    let mut rng = XorShift64::new(1);
    assert_eq!(rng.next_u64(), 1082269761);
    assert_eq!(rng.next_u64(), 1152992998833853505);
    let mut rng = XorShift64::new(1);
    assert_eq!(rng.next_field_nonzero(DEFAULT_PRIME), 1082269762);
    let mut rng = XorShift64::new(1);
    assert_eq!(rng.next_field(1000), 1082269761 % 1000);
    assert_ne!(zero.next_u64(), 0);
}

#[test]
fn setup_draws_masks_in_order() {
    let params = RegimeAParams::new(2, 3, 1);
    let db = vec![vec![0, 1, 0, 1, 1, 0]];
    let setup = TtpSetup::setup(db, params, 1);
    assert_eq!(setup.gamma, vec![1082269762]);
    let mut rng = XorShift64::new(1);
    rng.next_u64();
    let mut masks = Vec::new();
    let mut sum = 0u64;
    for _ in 0..3 {
        let m = rng.next_u64() % DEFAULT_PRIME;
        masks.push(m);
        sum = mod_add(sum, m, DEFAULT_PRIME);
    }
    assert_eq!(setup.r_masks, masks);
    assert_eq!(setup.r_sum, sum);
}

#[test]
fn server_rejects_tampered_submissions() {
    let params = RegimeAParams::new(8, 4, 3);
    let db = vec![vec![0; params.lambda()]];
    let setup = TtpSetup::setup(db, params, 5);
    let query = vec![0; params.lambda()];
    let honest = client_submit(&setup, query, 3);
    assert!(server_verify_and_decide(&setup, &honest).is_some());

    let mut wrong_id = honest.clone();
    wrong_id.msgid = 4;
    assert_eq!(server_verify_and_decide(&setup, &wrong_id), None);

    let mut wrong_total = honest.clone();
    wrong_total.res_total = mod_add(honest.res_total, 1, DEFAULT_PRIME);
    assert_eq!(server_verify_and_decide(&setup, &wrong_total), None);

    let mut wrong_root = honest.clone();
    wrong_root.root = honest.root.wrapping_add(1);
    assert_eq!(server_verify_and_decide(&setup, &wrong_root), None);

    let mut wrong_commit = honest.clone();
    wrong_commit.c_d = honest.c_d.wrapping_add(1);
    assert_eq!(server_verify_and_decide(&setup, &wrong_commit), None);
}

#[test]
fn distance_zero_is_yes_and_full_distance_is_no() {
    // Distance 0 from the only item: Z(0) = prod_{t=3}^{8} (0 - t) != 0, so
    // the unmasked total is nonzero and the answer is Yes.
    let params = RegimeAParams::new(8, 1, 3);
    let db = vec![vec![0; 8]];
    let setup = TtpSetup::setup(db, params, 13);
    let submission = client_submit(&setup, vec![0; 8], 1);
    assert_eq!(
        server_verify_and_decide(&setup, &submission),
        Some(ServerDecision::Yes)
    );
    // Distance 8 lies in [3, 8]: Z(8) = 0 and the answer is No.
    let far = client_submit(&setup, vec![1; 8], 2);
    assert_eq!(
        server_verify_and_decide(&setup, &far),
        Some(ServerDecision::No)
    );
}

#[test]
fn commitments_depend_on_the_string() {
    let params = RegimeAParams::new(4, 2, 1);
    let db = vec![vec![0; 8]];
    let setup = TtpSetup::setup(db, params, 21);
    let a = client_submit(&setup, vec![0, 0, 0, 0, 0, 0, 0, 0], 1);
    let b = client_submit(&setup, vec![1, 0, 0, 0, 0, 0, 0, 0], 1);
    assert_ne!(a.c_d, b.c_d);
    assert_ne!(a.root, b.root);
    let c = client_submit(&setup, vec![1, 0, 0, 0, 0, 0, 0, 0], 2);
    assert_eq!(c.c_d, b.c_d);
    assert_eq!(c.res_total, b.res_total);
}
