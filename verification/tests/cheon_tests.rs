use cheon_bsgs::attack::{attack_with, narrow_to_i128};
use cheon_bsgs::curve::{
    fr_from_u64, fr_pow, g1_eq, g1_generator, g1_scalar_mul, g2_generator, g2_scalar_mul,
    try_pairing, G1Point, G2Point, Scalar,
};
use cheon_bsgs::errors::AttackError;
use cheon_bsgs::params::{cheon_params, AttackParams};

// Powers of two in the scalar field.
fn two_pow(e: u128) -> Scalar {
    let two = fr_from_u64(2);
    fr_pow(&two, e, 128)
}

// A synthetic consistent instance: the five group elements a secret
// exponent 2^(k0 + k1 * m) would present to the solver, with the stage-1
// relation placed at k0 and the stage-2 relation at k1.
fn setup(k0: u128, k1: u128, m: u128, d: u128) -> (G1Point, G1Point, G1Point, G2Point, G2Point) {
    let p = g1_generator();
    let q = g2_generator();
    let tau = two_pow(k0 + k1 * m);
    let tau_p = g1_scalar_mul(&p, &tau);
    let x = two_pow(d * k0);
    let tau_d1_p = g1_scalar_mul(&p, &x);
    let one = fr_from_u64(1);
    let tau_d2_q = g2_scalar_mul(&q, &one);
    (p, tau_p, tau_d1_p, q, tau_d2_q)
}

// d1 = 3, d2 = 4, q = 36, so d = 7 and m = 5; k0 interval (2, 6],
// baby-step counts 2 and 2.
fn small_params() -> AttackParams {
    AttackParams::new(3, 4, 36, 2, 6, 2, 2).unwrap()
}

#[test]
fn small_params_are_accepted() {
    let ps = small_params();
    assert_eq!(ps.d, 7);
    assert_eq!(ps.m, 5);
    assert_eq!(ps.a, 2);
    assert_eq!(ps.b, 6);
}

#[test]
fn cheon_params_hold_the_curve_constants() {
    let ps = cheon_params();
    assert_eq!(ps.d1, 11726539);
    assert_eq!(ps.d2, 690320833);
    assert_eq!(ps.d, 702047372);
    assert_eq!(ps.q, 1114157594638178892192613);
    assert_eq!(ps.m, 1587011986761171);
    assert_eq!(ps.a, 1089478584172543);
    assert_eq!(ps.b, 1089547303649280);
    assert_eq!(ps.step1, 1 << 20);
    assert_eq!(ps.step2, 1 << 16);
    let rebuilt = AttackParams::new(
        11726539,
        690320833,
        1114157594638178892192613,
        1089478584172543,
        1089547303649280,
        1 << 20,
        1 << 16,
    )
    .unwrap();
    assert_eq!(rebuilt.m, ps.m);
}

#[test]
fn params_reject_zero_part() {
    assert_eq!(
        AttackParams::new(0, 4, 36, 2, 6, 2, 2),
        Err(AttackError::ParameterInconsistency)
    );
}

#[test]
fn params_reject_indivisible_order() {
    assert_eq!(
        AttackParams::new(3, 4, 37, 2, 6, 2, 2),
        Err(AttackError::ParameterInconsistency)
    );
}

#[test]
fn params_reject_empty_interval() {
    assert_eq!(
        AttackParams::new(3, 4, 36, 6, 6, 2, 2),
        Err(AttackError::ParameterInconsistency)
    );
}

#[test]
fn params_reject_zero_step() {
    assert_eq!(
        AttackParams::new(3, 4, 36, 2, 6, 0, 2),
        Err(AttackError::ParameterInconsistency)
    );
}

#[test]
fn recovers_known_secret() {
    let ps = small_params();
    // k0 = 4, k1 = 3: tau = 2^(4 + 3*5) = 2^19.
    let (p, tau_p, tau_d1_p, q, tau_d2_q) = setup(4, 3, ps.m, ps.d);
    let r = attack_with(&ps, p, tau_p, tau_d1_p, q, tau_d2_q);
    assert_eq!(r, Ok(1i128 << 19));
}

#[test]
fn round_trip_from_secret_alone() {
    let ps = small_params();
    // All five elements derived from tau = 2^5 alone, exactly as a holder
    // of the secret would publish them.
    let p = g1_generator();
    let q = g2_generator();
    let tau = two_pow(5);
    let tau_d1 = fr_pow(&tau, ps.d1, 128);
    let tau_d2 = fr_pow(&tau, ps.d2, 128);
    let tau_p = g1_scalar_mul(&p, &tau);
    let tau_d1_p = g1_scalar_mul(&p, &tau_d1);
    let tau_d2_q = g2_scalar_mul(&q, &tau_d2);
    let r = attack_with(&ps, p, tau_p, tau_d1_p, q, tau_d2_q);
    assert_eq!(r, Ok(32));
    // The returned exponent reproduces tau_p.
    let recovered = two_pow(5);
    assert!(g1_eq(&g1_scalar_mul(&p, &recovered), &tau_p));
}

#[test]
fn finds_k0_at_lower_interval_edge() {
    let ps = small_params();
    // k0 = a + 1 = 3, the smallest value of the interval.
    let (p, tau_p, tau_d1_p, q, tau_d2_q) = setup(3, 0, ps.m, ps.d);
    let r = attack_with(&ps, p, tau_p, tau_d1_p, q, tau_d2_q);
    assert_eq!(r, Ok(8));
}

#[test]
fn finds_k0_at_upper_interval_edge() {
    let ps = small_params();
    // k0 = b = 6, the largest value of the interval.
    let (p, tau_p, tau_d1_p, q, tau_d2_q) = setup(6, 0, ps.m, ps.d);
    let r = attack_with(&ps, p, tau_p, tau_d1_p, q, tau_d2_q);
    assert_eq!(r, Ok(64));
}

#[test]
fn stage1_exhausts_on_inconsistent_k() {
    let ps = small_params();
    let p = g1_generator();
    let q = g2_generator();
    let seven = fr_from_u64(7);
    // k = e(P, Q)^7 matches no power gamma^c searched by stage 1.
    let tau_d1_p = g1_scalar_mul(&p, &seven);
    let one = fr_from_u64(1);
    let tau_d2_q = g2_scalar_mul(&q, &one);
    let tau_p = g1_scalar_mul(&p, &two_pow(4));
    let r = attack_with(&ps, p, tau_p, tau_d1_p, q, tau_d2_q);
    assert_eq!(r, Err(AttackError::SearchExhausted));
}

#[test]
fn stage2_exhausts_on_inconsistent_tau_p() {
    let ps = small_params();
    // Stage 1 finds k0 = 4, but tau_P = 3 P matches no power 2^(k0 + c1*m).
    let (p, _, tau_d1_p, q, tau_d2_q) = setup(4, 0, ps.m, ps.d);
    let three = fr_from_u64(3);
    let tau_p = g1_scalar_mul(&p, &three);
    let r = attack_with(&ps, p, tau_p, tau_d1_p, q, tau_d2_q);
    assert_eq!(r, Err(AttackError::SearchExhausted));
}

#[test]
fn verification_fails_on_degenerate_consistency() {
    let ps = small_params();
    // With the G2 inputs at the identity every pairing value is one, both
    // stages report the first cell, and the candidate 2^(a+1) is then held
    // against a tau_P it cannot reproduce.
    let p = g1_generator();
    let zero = fr_from_u64(0);
    let q_id = g2_scalar_mul(&g2_generator(), &zero);
    let five = fr_from_u64(5);
    let tau_p = g1_scalar_mul(&p, &five);
    let seven = fr_from_u64(7);
    let tau_d1_p = g1_scalar_mul(&p, &seven);
    let r = attack_with(&ps, p, tau_p, tau_d1_p, q_id, q_id);
    assert_eq!(r, Err(AttackError::VerificationFailed));
}

#[test]
fn overflow_of_output_width_is_reported() {
    // d1 = 40, d2 = 41: d = 81, q = 406, m = 5; step2 = 16 so that
    // k1 = 25 is searched; tau = 2^(3 + 25*5) = 2^128 does not fit i128.
    let ps = AttackParams::new(40, 41, 406, 2, 6, 2, 16).unwrap();
    let (p, tau_p, tau_d1_p, q, tau_d2_q) = setup(3, 25, ps.m, ps.d);
    let r = attack_with(&ps, p, tau_p, tau_d1_p, q, tau_d2_q);
    assert_eq!(r, Err(AttackError::RangeOverflow));
}

#[test]
fn narrowing_accepts_small_values() {
    let t = two_pow(100);
    assert_eq!(narrow_to_i128(&t), Ok(1i128 << 100));
}

#[test]
fn narrowing_reports_overflow() {
    let t = two_pow(127);
    assert_eq!(narrow_to_i128(&t), Err(AttackError::RangeOverflow));
}

#[test]
fn identical_inputs_yield_identical_output() {
    let ps = small_params();
    let (p, tau_p, tau_d1_p, q, tau_d2_q) = setup(4, 3, ps.m, ps.d);
    let r1 = attack_with(&ps, p, tau_p, tau_d1_p, q, tau_d2_q);
    let r2 = attack_with(&ps, p, tau_p, tau_d1_p, q, tau_d2_q);
    assert_eq!(r1, r2);
    assert_eq!(r1, Ok(1i128 << 19));
    let bad = g1_scalar_mul(&p, &fr_from_u64(3));
    let e1 = attack_with(&ps, p, bad, tau_d1_p, q, tau_d2_q);
    let e2 = attack_with(&ps, p, bad, tau_d1_p, q, tau_d2_q);
    assert_eq!(e1, e2);
}

#[test]
fn pairing_of_identity_is_defined() {
    let zero = fr_from_u64(0);
    let p_id = g1_scalar_mul(&g1_generator(), &zero);
    let q = g2_generator();
    assert!(try_pairing(&p_id, &q).is_some());
}
