use vstd::prelude::*;
use vstd::arithmetic::div_mod::lemma_fundamental_div_mod;
use crate::errors::AttackError;

verus! {

/// The constant bundle that fixes one attack instantiation: the two small
/// exponents `d1` and `d2` with `d = d1 + d2`, the subgroup order `q` with
/// the derived small-subgroup order `m = (q - 1) / d`, the interval `(a, b]`
/// that bounds the low-order unknown `k0`, and the baby-step counts of the
/// two search stages.
#[derive(Clone, Copy, Debug, PartialEq, Eq, Structural)]
pub struct AttackParams {
    pub d1: u128,
    pub d2: u128,
    pub d: u128,
    pub q: u128,
    pub m: u128,
    pub a: u128,
    pub b: u128,
    pub step1: u64,
    pub step2: u64,
}

/// The conditions under which a constant bundle is accepted: positive parts,
/// `d = d1 + d2` small enough for the exponentiation widths used by the
/// solver, `d` dividing `q - 1` exactly, the derived subgroup order and the
/// interval bound small enough that every derived exponent fits its width,
/// and positive step counts.
pub open spec fn params_valid(
    d1: u128,
    d2: u128,
    q: u128,
    a: u128,
    b: u128,
    step1: u64,
    step2: u64,
) -> bool {
    &&& 1 <= d1
    &&& 1 <= d2
    &&& d1 + d2 < 0x1_0000_0000_0000_0000
    &&& 2 <= q
    &&& (q - 1) % (d1 + d2) == 0
    &&& 1 <= (q - 1) / (d1 + d2)
    &&& (q - 1) / (d1 + d2) < 0x8_0000_0000_0000
    &&& a < b
    &&& b < 0x8_0000_0000_0000
    &&& 1 <= step1
    &&& 1 <= step2
}

impl AttackParams {
    /// Internal consistency of a bundle: what `new` establishes and every
    /// solver entry point relies on.
    pub open spec fn wf(self) -> bool {
        &&& 1 <= self.d1
        &&& 1 <= self.d2
        &&& self.d == self.d1 + self.d2
        &&& self.d < 0x1_0000_0000_0000_0000
        &&& 2 <= self.q
        &&& self.m * self.d == self.q - 1
        &&& 1 <= self.m
        &&& self.m < 0x8_0000_0000_0000
        &&& self.a < self.b
        &&& self.b < 0x8_0000_0000_0000
        &&& 1 <= self.step1
        &&& 1 <= self.step2
    }

    /// Validates a constant bundle once, at construction: the derived values
    /// `d` and `m` are computed here, and a bundle is returned exactly when
    /// the subgroup relations hold.
    pub fn new(
        d1: u128,
        d2: u128,
        q: u128,
        a: u128,
        b: u128,
        step1: u64,
        step2: u64,
    ) -> (r: Result<AttackParams, AttackError>)
        ensures
            match r {
                Ok(p) => {
                    &&& params_valid(d1, d2, q, a, b, step1, step2)
                    &&& p.wf()
                    &&& p.d1 == d1
                    &&& p.d2 == d2
                    &&& p.d == d1 + d2
                    &&& p.q == q
                    &&& p.m == (q - 1) / (d1 + d2)
                    &&& p.a == a
                    &&& p.b == b
                    &&& p.step1 == step1
                    &&& p.step2 == step2
                },
                Err(e) => {
                    &&& e == AttackError::ParameterInconsistency
                    &&& !params_valid(d1, d2, q, a, b, step1, step2)
                },
            },
    {
        if d1 < 1 || d2 < 1 {
            return Err(AttackError::ParameterInconsistency);
        }
        if d1 >= 0x1_0000_0000_0000_0000u128 || d2 >= 0x1_0000_0000_0000_0000u128 {
            return Err(AttackError::ParameterInconsistency);
        }
        let d = d1 + d2;
        if d >= 0x1_0000_0000_0000_0000u128 {
            return Err(AttackError::ParameterInconsistency);
        }
        if q < 2 {
            return Err(AttackError::ParameterInconsistency);
        }
        if (q - 1) % d != 0 {
            return Err(AttackError::ParameterInconsistency);
        }
        let m = (q - 1) / d;
        if m < 1 || m >= 0x8_0000_0000_0000u128 {
            return Err(AttackError::ParameterInconsistency);
        }
        if a >= b || b >= 0x8_0000_0000_0000u128 {
            return Err(AttackError::ParameterInconsistency);
        }
        if step1 < 1 || step2 < 1 {
            return Err(AttackError::ParameterInconsistency);
        }
        proof {
            lemma_fundamental_div_mod((q - 1) as int, d as int);
            assert((q - 1) as int == d as int * (((q - 1) as int) / (d as int)) + ((q - 1) as int) % (d as int));
            assert(((q - 1) as int) % (d as int) == 0);
            assert(m as int == ((q - 1) as int) / (d as int));
            assert(m as int * d as int == (q - 1) as int);
        }
        Ok(AttackParams { d1, d2, d, q, m, a, b, step1, step2 })
    }
}

/// The constant bundle of the target curve instantiation this attack was
/// written against: `q` is the order of the multiplicative subgroup
/// generated by 2 in the scalar field, `(a, b]` the known interval of the
/// low-order unknown, and the step counts 2^20 and 2^16.
pub open spec fn cheon_params_spec() -> AttackParams {
    AttackParams {
        d1: 11726539u128,
        d2: 690320833u128,
        d: 702047372u128,
        q: 1114157594638178892192613u128,
        m: 1587011986761171u128,
        a: 1089478584172543u128,
        b: 1089547303649280u128,
        step1: 0x100000u64,
        step2: 0x10000u64,
    }
}

/// Builds the fixed bundle of the target curve instantiation, with its
/// subgroup relations proved rather than assumed.
pub fn cheon_params() -> (r: AttackParams)
    ensures
        r == cheon_params_spec(),
        r.wf(),
{
    proof {
        assert(1587011986761171u128 * 702047372u128 == 1114157594638178892192612u128)
            by (nonlinear_arith);
    }
    AttackParams {
        d1: 11726539u128,
        d2: 690320833u128,
        d: 702047372u128,
        q: 1114157594638178892192613u128,
        m: 1587011986761171u128,
        a: 1089478584172543u128,
        b: 1089547303649280u128,
        step1: 0x100000u64,
        step2: 0x10000u64,
    }
}

} // verus!
