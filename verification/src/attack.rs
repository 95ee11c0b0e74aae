use vstd::prelude::*;
use vstd::arithmetic::div_mod::{lemma_fundamental_div_mod, lemma_mod_bound};
use vstd::arithmetic::power2::lemma2_to64;
use crate::curve::{
    G1Point, G2Point, GtElem, Scalar, pairing_of, gt_pow_of, fr_pow_of, fr_inv_of, fr_of,
    fr_int_of, g1_mul_of, g1_same_of, try_pairing, gt_pow, fr_pow, fr_inverse, fr_from_u64,
    fr_limbs, g1_scalar_mul, g1_eq, limbs_to_nat,
};
use crate::errors::AttackError;
use crate::params::{AttackParams, cheon_params, cheon_params_spec};
use crate::bsgs::{bsgs_hit, bsgs_post, bsgs_search, lemma_bsgs_post_unique, lemma_bsgs_exact};

verus! {

/// The generator "2" of the exploited multiplicative subgroup, as a scalar.
pub open spec fn sp_two() -> Scalar {
    fr_of(2)
}

/// The stage-1 table generator `2^d`, a generator of the small subgroup of
/// order `m`.
pub open spec fn sp_gamma(ps: AttackParams) -> Scalar {
    fr_pow_of(sp_two(), ps.d)
}

/// The stage-2 table generator `eta = 2^m`, a generator of the small
/// subgroup of order `d`.
pub open spec fn sp_eta(ps: AttackParams) -> Scalar {
    fr_pow_of(sp_two(), ps.m)
}

/// Giant iterations of stage 1: `m / step1`.
pub open spec fn sp_iters1(ps: AttackParams) -> nat {
    (ps.m / (ps.step1 as u128)) as nat
}

/// Giant iterations of stage 2: `d / step2`.
pub open spec fn sp_iters2(ps: AttackParams) -> nat {
    (ps.d / (ps.step2 as u128)) as nat
}

/// The stage-1 giant-step start value: `k` pre-shifted by `-(a + 1)` in the
/// exponent, that is `k^(gamma^-(a+1))`.
pub open spec fn sp_start1(ps: AttackParams, k: GtElem) -> GtElem {
    gt_pow_of(k, fr_pow_of(fr_inv_of(sp_gamma(ps)), (ps.a + 1) as u128))
}

/// The stage-1 giant-step increment `gamma^-step1`.
pub open spec fn sp_inc1(ps: AttackParams) -> Scalar {
    fr_pow_of(fr_inv_of(sp_gamma(ps)), ps.step1 as u128)
}

/// What stage 1 reports over the pairing value `g = e(P, Q)` and
/// `k = e(tau^d1 P, tau^d2 Q)`.
pub open spec fn stage1_post(ps: AttackParams, g: GtElem, k: GtElem, r: Option<u128>) -> bool {
    bsgs_post(g, sp_gamma(ps), ps.step1 as nat, sp_start1(ps, k), sp_inc1(ps), sp_iters1(ps), r)
}

/// The low-order unknown recovered from a stage-1 report `c0`: the interval
/// offset `a + 1 + c0` (the lower bound `a` itself is excluded).
pub open spec fn sp_k0(ps: AttackParams, c0: u128) -> u128 {
    (ps.a + 1 + c0) as u128
}

/// The stage-2 giant-step start value: `h` pre-shifted by `-k0` in the
/// exponent, that is `h^(2^-k0)`.
pub open spec fn sp_start2(ps: AttackParams, h: GtElem, k0: u128) -> GtElem {
    gt_pow_of(h, fr_pow_of(fr_inv_of(sp_two()), k0))
}

/// The stage-2 giant-step increment `eta^-step2`.
pub open spec fn sp_inc2(ps: AttackParams) -> Scalar {
    fr_pow_of(fr_inv_of(sp_eta(ps)), ps.step2 as u128)
}

/// What stage 2 reports over `g` and `h = e(tau P, Q)`, given the low-order
/// unknown `k0` recovered by stage 1.
pub open spec fn stage2_post(
    ps: AttackParams,
    g: GtElem,
    h: GtElem,
    k0: u128,
    r: Option<u128>,
) -> bool {
    bsgs_post(g, sp_eta(ps), ps.step2 as nat, sp_start2(ps, h, k0), sp_inc2(ps), sp_iters2(ps), r)
}

/// The recombined candidate exponent `2^(k0 + k1 * m)`.
pub open spec fn sp_tau(ps: AttackParams, k0: u128, k1: u128) -> Scalar {
    fr_pow_of(sp_two(), (k0 + k1 * ps.m) as u128)
}

/// The verification identity: the candidate scalar reproduces the supplied
/// scaled base point.
pub open spec fn recovers(p: G1Point, tau_p: G1Point, t: Scalar) -> bool {
    g1_same_of(g1_mul_of(p, t), tau_p)
}

/// Both search stages reported: stage 1 first hit at `c0`, and stage 2 —
/// run with the low-order unknown derived from `c0` — first hit at `c1`.
pub open spec fn full_run(
    ps: AttackParams,
    g: GtElem,
    h: GtElem,
    k: GtElem,
    c0: u128,
    c1: u128,
) -> bool {
    &&& stage1_post(ps, g, k, Some(c0))
    &&& stage2_post(ps, g, h, sp_k0(ps, c0), Some(c1))
}

/// The complete contract of one attack invocation on the five input points
/// under a parameter bundle: which value is returned, and each failure with
/// the exact condition under which it is reported.
pub open spec fn attack_post(
    p: G1Point,
    tau_p: G1Point,
    tau_d1_p: G1Point,
    q_pt: G2Point,
    tau_d2_q: G2Point,
    ps: AttackParams,
    r: Result<i128, AttackError>,
) -> bool {
    let go = pairing_of(p, q_pt);
    let ho = pairing_of(tau_p, q_pt);
    let ko = pairing_of(tau_d1_p, tau_d2_q);
    if go is None || ho is None || ko is None {
        r == Err::<i128, AttackError>(AttackError::DegeneratePairing)
    } else {
        let g = go->Some_0;
        let h = ho->Some_0;
        let k = ko->Some_0;
        match r {
            Ok(v) => exists|c0: u128, c1: u128|
                {
                    &&& #[trigger] full_run(ps, g, h, k, c0, c1)
                    &&& recovers(p, tau_p, sp_tau(ps, sp_k0(ps, c0), c1))
                    &&& fr_int_of(sp_tau(ps, sp_k0(ps, c0), c1))
                        < 0x80000000000000000000000000000000u128
                    &&& 0 <= v
                    &&& v as int == fr_int_of(sp_tau(ps, sp_k0(ps, c0), c1))
                },
            Err(e) => {
                if e == AttackError::SearchExhausted {
                    ||| stage1_post(ps, g, k, None::<u128>)
                    ||| exists|c0: u128|
                        #[trigger] stage1_post(ps, g, k, Some(c0)) && stage2_post(
                            ps,
                            g,
                            h,
                            sp_k0(ps, c0),
                            None::<u128>,
                        )
                } else if e == AttackError::VerificationFailed {
                    exists|c0: u128, c1: u128|
                        #[trigger] full_run(ps, g, h, k, c0, c1) && !recovers(
                            p,
                            tau_p,
                            sp_tau(ps, sp_k0(ps, c0), c1),
                        )
                } else if e == AttackError::RangeOverflow {
                    exists|c0: u128, c1: u128|
                        {
                            &&& #[trigger] full_run(ps, g, h, k, c0, c1)
                            &&& recovers(p, tau_p, sp_tau(ps, sp_k0(ps, c0), c1))
                            &&& fr_int_of(sp_tau(ps, sp_k0(ps, c0), c1))
                                >= 0x80000000000000000000000000000000u128
                        }
                } else {
                    false
                }
            },
        }
    }
}

/// Narrows the canonical integer of the recovered scalar to the output
/// width: the value is returned exactly when it fits a non-negative i128,
/// and an overflow is reported rather than truncated.
pub fn narrow_to_i128(t: &Scalar) -> (r: Result<i128, AttackError>)
    ensures
        match r {
            Ok(v) => {
                &&& fr_int_of(*t) < 0x80000000000000000000000000000000u128
                &&& 0 <= v
                &&& v as int == fr_int_of(*t)
            },
            Err(e) => {
                &&& e == AttackError::RangeOverflow
                &&& fr_int_of(*t) >= 0x80000000000000000000000000000000u128
            },
        },
{
    let l = fr_limbs(t);
    proof {
        let s = l@;
        let t1 = s.skip(1);
        let t2 = t1.skip(1);
        let t3 = t2.skip(1);
        let t4 = t3.skip(1);
        assert(t1.len() == 3 && t2.len() == 2 && t3.len() == 1 && t4.len() == 0);
        assert(t1[0] == s[1] && t1[1] == s[2] && t1[2] == s[3]);
        assert(t2[0] == s[2] && t2[1] == s[3]);
        assert(t3[0] == s[3]);
        assert(limbs_to_nat(t4) == 0);
        assert(limbs_to_nat(t3) == s[3] as nat);
        assert(limbs_to_nat(t2) == s[2] as nat + 0x1_0000_0000_0000_0000 * (s[3] as nat));
        assert(limbs_to_nat(t1) == s[1] as nat + 0x1_0000_0000_0000_0000 * limbs_to_nat(t2));
        assert(limbs_to_nat(s) == s[0] as nat + 0x1_0000_0000_0000_0000 * limbs_to_nat(t1));
    }
    if l[2] != 0 || l[3] != 0 || l[1] >= 0x8000_0000_0000_0000u64 {
        return Err(AttackError::RangeOverflow);
    }
    let v: u128 = (l[0] as u128) + (l[1] as u128) * 0x1_0000_0000_0000_0000u128;
    Ok(v as i128)
}

/// Runs the two-stage solver under an explicit, validated parameter bundle:
/// three pairing evaluations, the stage-1 search for the low-order unknown,
/// the stage-2 search for the high-order unknown, recombination, the
/// verification of the candidate against `tau_p`, and the narrowing of the
/// confirmed exponent to the output width.
pub fn attack_with(
    ps: &AttackParams,
    p: G1Point,
    tau_p: G1Point,
    tau_d1_p: G1Point,
    q_pt: G2Point,
    tau_d2_q: G2Point,
) -> (r: Result<i128, AttackError>)
    requires
        ps.wf(),
    ensures
        attack_post(p, tau_p, tau_d1_p, q_pt, tau_d2_q, *ps, r),
{
    proof {
        lemma2_to64();
    }
    let g = match try_pairing(&p, &q_pt) {
        Some(v) => v,
        None => {
            return Err(AttackError::DegeneratePairing);
        },
    };
    let h = match try_pairing(&tau_p, &q_pt) {
        Some(v) => v,
        None => {
            return Err(AttackError::DegeneratePairing);
        },
    };
    let k = match try_pairing(&tau_d1_p, &tau_d2_q) {
        Some(v) => v,
        None => {
            return Err(AttackError::DegeneratePairing);
        },
    };
    let two = fr_from_u64(2);
    let gamma = fr_pow(&two, ps.d, 64);
    let gamma_inv = fr_inverse(&gamma);

    // Stage 1: find the low-order unknown in the interval (a, b].
    let shift1 = fr_pow(&gamma_inv, ps.a + 1, 64);
    let start1 = gt_pow(&k, &shift1);
    let inc1 = fr_pow(&gamma_inv, ps.step1 as u128, 64);
    let iters1 = ps.m / (ps.step1 as u128);
    proof {
        lemma_fundamental_div_mod(ps.m as int, ps.step1 as int);
        lemma_mod_bound(ps.m as int, ps.step1 as int);
    }
    let c0 = match bsgs_search(&g, &gamma, ps.step1, &start1, &inc1, iters1) {
        Some(c) => c,
        None => {
            return Err(AttackError::SearchExhausted);
        },
    };
    proof {
        assert((c0 as int) < (iters1 as int) * (ps.step1 as int));
        assert((iters1 as int) * (ps.step1 as int) <= ps.m as int);
    }
    let k0 = ps.a + 1 + c0;

    // Stage 2: find the high-order unknown in [0, d).
    let eta = fr_pow(&two, ps.m, 64);
    let eta_inv = fr_inverse(&eta);
    let two_inv = fr_inverse(&two);
    let shift2 = fr_pow(&two_inv, k0, 64);
    let start2 = gt_pow(&h, &shift2);
    let inc2 = fr_pow(&eta_inv, ps.step2 as u128, 64);
    let iters2 = ps.d / (ps.step2 as u128);
    proof {
        lemma_fundamental_div_mod(ps.d as int, ps.step2 as int);
        lemma_mod_bound(ps.d as int, ps.step2 as int);
    }
    let c1 = match bsgs_search(&g, &eta, ps.step2, &start2, &inc2, iters2) {
        Some(c) => c,
        None => {
            proof {
                assert(stage1_post(*ps, g, k, Some(c0)));
            }
            return Err(AttackError::SearchExhausted);
        },
    };
    proof {
        assert((c1 as int) < (iters2 as int) * (ps.step2 as int));
        assert((iters2 as int) * (ps.step2 as int) <= ps.d as int);
        assert((c1 as int) * (ps.m as int) < (ps.d as int) * (ps.m as int)) by (nonlinear_arith)
            requires
                (c1 as int) < (ps.d as int),
                0 < (ps.m as int),
        ;
        assert((ps.d as int) * (ps.m as int) < 0x10000000000000000 * 0x8000000000000)
            by (nonlinear_arith)
            requires
                0 <= ps.d < 0x10000000000000000,
                0 <= ps.m < 0x8000000000000,
        ;
    }

    // Recombination: tau = 2^(k0 + k1 * m), with a width hint wide enough
    // for the full scalar field.
    let e_exp = k0 + c1 * ps.m;
    let tau = fr_pow(&two, e_exp, 128);

    // Verification: the candidate must reproduce the supplied scaled point.
    let p_tau = g1_scalar_mul(&p, &tau);
    let confirmed = g1_eq(&p_tau, &tau_p);
    proof {
        assert(full_run(*ps, g, h, k, c0, c1));
        assert(tau == sp_tau(*ps, sp_k0(*ps, c0), c1));
    }
    if !confirmed {
        return Err(AttackError::VerificationFailed);
    }
    narrow_to_i128(&tau)
}

/// Runs the solver under the fixed constant bundle of the target curve
/// instantiation, on the five caller-supplied group elements.
pub fn attack(
    p: G1Point,
    tau_p: G1Point,
    tau_d1_p: G1Point,
    q_pt: G2Point,
    tau_d2_q: G2Point,
) -> (r: Result<i128, AttackError>)
    ensures
        attack_post(p, tau_p, tau_d1_p, q_pt, tau_d2_q, cheon_params_spec(), r),
{
    let ps = cheon_params();
    attack_with(&ps, p, tau_p, tau_d1_p, q_pt, tau_d2_q)
}

/// The outcome forced once both stages have reported: the candidate either
/// fails verification, or overflows the output width, or is returned.
pub open spec fn sp_outcome(
    p: G1Point,
    tau_p: G1Point,
    ps: AttackParams,
    c0: u128,
    c1: u128,
) -> Result<i128, AttackError> {
    let t = sp_tau(ps, sp_k0(ps, c0), c1);
    if !recovers(p, tau_p, t) {
        Err(AttackError::VerificationFailed)
    } else if fr_int_of(t) >= 0x80000000000000000000000000000000u128 {
        Err(AttackError::RangeOverflow)
    } else {
        Ok(fr_int_of(t) as i128)
    }
}

/// Reads the two stage reports out of a non-degenerate result: whatever the
/// result, it determines a stage-1 report, a stage-2 report when stage 1
/// reported, and — once both stages reported — the exact outcome.
proof fn lemma_classify(
    p: G1Point,
    tau_p: G1Point,
    tau_d1_p: G1Point,
    q_pt: G2Point,
    tau_d2_q: G2Point,
    ps: AttackParams,
    r: Result<i128, AttackError>,
) -> (w: (Option<u128>, Option<u128>))
    requires
        pairing_of(p, q_pt) is Some,
        pairing_of(tau_p, q_pt) is Some,
        pairing_of(tau_d1_p, tau_d2_q) is Some,
        attack_post(p, tau_p, tau_d1_p, q_pt, tau_d2_q, ps, r),
    ensures
        ({
            let g = pairing_of(p, q_pt)->Some_0;
            let h = pairing_of(tau_p, q_pt)->Some_0;
            let k = pairing_of(tau_d1_p, tau_d2_q)->Some_0;
            &&& stage1_post(ps, g, k, w.0)
            &&& w.0 matches Some(c0) ==> stage2_post(ps, g, h, sp_k0(ps, c0), w.1)
            &&& w.0 is None ==> r == Err::<i128, AttackError>(AttackError::SearchExhausted)
            &&& w.0 is Some && w.1 is None ==> r == Err::<i128, AttackError>(
                AttackError::SearchExhausted,
            )
            &&& w.0 is Some && w.1 is Some ==> r == sp_outcome(
                p,
                tau_p,
                ps,
                w.0->Some_0,
                w.1->Some_0,
            )
        }),
{
    let g = pairing_of(p, q_pt)->Some_0;
    let h = pairing_of(tau_p, q_pt)->Some_0;
    let k = pairing_of(tau_d1_p, tau_d2_q)->Some_0;
    match r {
        Ok(v) => {
            let (c0, c1) = choose|c0: u128, c1: u128|
                {
                    &&& #[trigger] full_run(ps, g, h, k, c0, c1)
                    &&& recovers(p, tau_p, sp_tau(ps, sp_k0(ps, c0), c1))
                    &&& fr_int_of(sp_tau(ps, sp_k0(ps, c0), c1))
                        < 0x80000000000000000000000000000000u128
                    &&& 0 <= v
                    &&& v as int == fr_int_of(sp_tau(ps, sp_k0(ps, c0), c1))
                };
            let t = sp_tau(ps, sp_k0(ps, c0), c1);
            assert(full_run(ps, g, h, k, c0, c1));
            assert(0 <= v && v as int == fr_int_of(t));
            assert(fr_int_of(t) < 0x80000000000000000000000000000000u128);
            assert(v == fr_int_of(t) as i128);
            assert(Ok::<i128, AttackError>(v) == sp_outcome(p, tau_p, ps, c0, c1));
            (Some(c0), Some(c1))
        },
        Err(e) => {
            if e == AttackError::SearchExhausted {
                if stage1_post(ps, g, k, None::<u128>) {
                    (None, None)
                } else {
                    let c0 = choose|c0: u128|
                        #[trigger] stage1_post(ps, g, k, Some(c0)) && stage2_post(
                            ps,
                            g,
                            h,
                            sp_k0(ps, c0),
                            None::<u128>,
                        );
                    (Some(c0), None)
                }
            } else if e == AttackError::VerificationFailed {
                let (c0, c1) = choose|c0: u128, c1: u128|
                    #[trigger] full_run(ps, g, h, k, c0, c1) && !recovers(
                        p,
                        tau_p,
                        sp_tau(ps, sp_k0(ps, c0), c1),
                    );
                (Some(c0), Some(c1))
            } else {
                let (c0, c1) = choose|c0: u128, c1: u128|
                    {
                        &&& #[trigger] full_run(ps, g, h, k, c0, c1)
                        &&& recovers(p, tau_p, sp_tau(ps, sp_k0(ps, c0), c1))
                        &&& fr_int_of(sp_tau(ps, sp_k0(ps, c0), c1))
                            >= 0x80000000000000000000000000000000u128
                    };
                (Some(c0), Some(c1))
            }
        },
    }
}

/// Repeated invocations with identical inputs yield identical output: the
/// contract pins the result as a function of the five points and the
/// parameter bundle alone, so any two results that both satisfy it coincide.
pub proof fn lemma_attack_deterministic(
    p: G1Point,
    tau_p: G1Point,
    tau_d1_p: G1Point,
    q_pt: G2Point,
    tau_d2_q: G2Point,
    ps: AttackParams,
    r1: Result<i128, AttackError>,
    r2: Result<i128, AttackError>,
)
    requires
        attack_post(p, tau_p, tau_d1_p, q_pt, tau_d2_q, ps, r1),
        attack_post(p, tau_p, tau_d1_p, q_pt, tau_d2_q, ps, r2),
    ensures
        r1 == r2,
{
    let go = pairing_of(p, q_pt);
    let ho = pairing_of(tau_p, q_pt);
    let ko = pairing_of(tau_d1_p, tau_d2_q);
    if go is None || ho is None || ko is None {
    } else {
        let g = go->Some_0;
        let h = ho->Some_0;
        let k = ko->Some_0;
        let w1 = lemma_classify(p, tau_p, tau_d1_p, q_pt, tau_d2_q, ps, r1);
        let w2 = lemma_classify(p, tau_p, tau_d1_p, q_pt, tau_d2_q, ps, r2);
        lemma_bsgs_post_unique(
            g,
            sp_gamma(ps),
            ps.step1 as nat,
            sp_start1(ps, k),
            sp_inc1(ps),
            sp_iters1(ps),
            w1.0,
            w2.0,
        );
        if w1.0 is Some {
            let c0 = w1.0->Some_0;
            lemma_bsgs_post_unique(
                g,
                sp_eta(ps),
                ps.step2 as nat,
                sp_start2(ps, h, sp_k0(ps, c0)),
                sp_inc2(ps),
                sp_iters2(ps),
                w1.1,
                w2.1,
            );
        }
    }
}

/// No false positive: on success, the returned integer is the canonical
/// representative of a scalar that reproduces the caller-supplied scaled
/// point. An inconsistent `tau_p` can therefore never yield a recovered
/// exponent.
pub proof fn lemma_no_false_positive(
    p: G1Point,
    tau_p: G1Point,
    tau_d1_p: G1Point,
    q_pt: G2Point,
    tau_d2_q: G2Point,
    ps: AttackParams,
    v: i128,
)
    requires
        attack_post(p, tau_p, tau_d1_p, q_pt, tau_d2_q, ps, Ok(v)),
    ensures
        exists|t: Scalar| #[trigger] recovers(p, tau_p, t) && v as int == fr_int_of(t),
{
    let g = pairing_of(p, q_pt)->Some_0;
    let h = pairing_of(tau_p, q_pt)->Some_0;
    let k = pairing_of(tau_d1_p, tau_d2_q)->Some_0;
    let (c0, c1) = choose|c0: u128, c1: u128|
        {
            &&& #[trigger] full_run(ps, g, h, k, c0, c1)
            &&& recovers(p, tau_p, sp_tau(ps, sp_k0(ps, c0), c1))
            &&& fr_int_of(sp_tau(ps, sp_k0(ps, c0), c1)) < 0x80000000000000000000000000000000u128
            &&& 0 <= v
            &&& v as int == fr_int_of(sp_tau(ps, sp_k0(ps, c0), c1))
        };
    assert(recovers(p, tau_p, sp_tau(ps, sp_k0(ps, c0), c1)));
}

/// Round trip: when the five supplied elements are consistent with a secret
/// exponent — stage 1 first hits at `c0`, stage 2 (run with the derived
/// low-order unknown) first hits at `c1`, the recombined scalar reproduces
/// `tau_p`, and its representative fits the output width — the attack must
/// return exactly that representative.
pub proof fn lemma_attack_complete(
    p: G1Point,
    tau_p: G1Point,
    tau_d1_p: G1Point,
    q_pt: G2Point,
    tau_d2_q: G2Point,
    ps: AttackParams,
    c0: u128,
    c1: u128,
    r: Result<i128, AttackError>,
)
    requires
        pairing_of(p, q_pt) is Some,
        pairing_of(tau_p, q_pt) is Some,
        pairing_of(tau_d1_p, tau_d2_q) is Some,
        full_run(
            ps,
            pairing_of(p, q_pt)->Some_0,
            pairing_of(tau_p, q_pt)->Some_0,
            pairing_of(tau_d1_p, tau_d2_q)->Some_0,
            c0,
            c1,
        ),
        recovers(p, tau_p, sp_tau(ps, sp_k0(ps, c0), c1)),
        fr_int_of(sp_tau(ps, sp_k0(ps, c0), c1)) < 0x80000000000000000000000000000000u128,
        attack_post(p, tau_p, tau_d1_p, q_pt, tau_d2_q, ps, r),
    ensures
        r == Ok::<i128, AttackError>(fr_int_of(sp_tau(ps, sp_k0(ps, c0), c1)) as i128),
{
    let g = pairing_of(p, q_pt)->Some_0;
    let h = pairing_of(tau_p, q_pt)->Some_0;
    let k = pairing_of(tau_d1_p, tau_d2_q)->Some_0;
    let w = lemma_classify(p, tau_p, tau_d1_p, q_pt, tau_d2_q, ps, r);
    lemma_bsgs_post_unique(
        g,
        sp_gamma(ps),
        ps.step1 as nat,
        sp_start1(ps, k),
        sp_inc1(ps),
        sp_iters1(ps),
        w.0,
        Some(c0),
    );
    lemma_bsgs_post_unique(
        g,
        sp_eta(ps),
        ps.step2 as nat,
        sp_start2(ps, h, sp_k0(ps, c0)),
        sp_inc2(ps),
        sp_iters2(ps),
        w.1,
        Some(c1),
    );
    assert(r == sp_outcome(p, tau_p, ps, c0, c1));
}

/// Both edges of the stage-1 interval are discoverable, and the interval
/// offset is exact: when the stage-1 relation first hits at the cell of
/// offset `k0 - (a + 1)` for a `k0` in `(a, b]` — the edge values `a + 1`
/// and `b` included — the stage reports exactly that offset, and the
/// low-order unknown derived from the report is exactly `k0`.
pub proof fn lemma_stage1_interval_edges(
    ps: AttackParams,
    g: GtElem,
    k: GtElem,
    k0: u128,
    r: Option<u128>,
)
    requires
        ps.wf(),
        ps.a < k0 <= ps.b,
        (ps.b - ps.a) as int <= sp_iters1(ps) * (ps.step1 as nat),
        bsgs_hit(
            g,
            sp_gamma(ps),
            ps.step1 as nat,
            sp_start1(ps, k),
            sp_inc1(ps),
            ((k0 - ps.a - 1) as nat) / (ps.step1 as nat),
            ((k0 - ps.a - 1) as nat) % (ps.step1 as nat),
        ),
        forall|i: nat, j: nat|
            j < ps.step1 && i * (ps.step1 as nat) + j < (k0 - ps.a - 1) as nat ==> !bsgs_hit(
                g,
                sp_gamma(ps),
                ps.step1 as nat,
                sp_start1(ps, k),
                sp_inc1(ps),
                i,
                j,
            ),
        stage1_post(ps, g, k, r),
    ensures
        r == Some((k0 - ps.a - 1) as u128),
        sp_k0(ps, (k0 - ps.a - 1) as u128) == k0,
{
    let c = (k0 - ps.a - 1) as nat;
    assert(c < sp_iters1(ps) * (ps.step1 as nat));
    lemma_bsgs_exact(
        g,
        sp_gamma(ps),
        ps.step1 as nat,
        sp_start1(ps, k),
        sp_inc1(ps),
        sp_iters1(ps),
        c,
        r,
    );
}

} // verus!
