use vstd::prelude::*;
use crate::curve::{GtElem, Scalar, gt_pow, gt_pow_of, gt_eq};

verus! {

/// The chain of repeated exponentiations that both the baby-step table and
/// the giant steps walk: `n` applications of "raise to `mult`" starting from
/// `start`.
pub open spec fn pow_chain(start: GtElem, mult: Scalar, n: nat) -> GtElem
    decreases n,
{
    if n == 0 {
        start
    } else {
        gt_pow_of(pow_chain(start, mult, (n - 1) as nat), mult)
    }
}

/// Builds the baby-step table of a search stage: entry `j` holds the `j`-th
/// step of the chain that starts at `base` and repeatedly raises to `gen`,
/// so the table covers the `step` consecutive chain values, in `step` field
/// exponentiations.
pub fn build_table(base: &GtElem, gen: &Scalar, step: u64) -> (t: Vec<GtElem>)
    ensures
        t.len() == step,
        forall|j: int| 0 <= j < step ==> t[j] == pow_chain(*base, *gen, j as nat),
{
    let mut t: Vec<GtElem> = Vec::new();
    let mut cur: GtElem = *base;
    let mut j: u64 = 0;
    while j < step
        invariant
            j <= step,
            t.len() == j,
            cur == pow_chain(*base, *gen, j as nat),
            forall|i: int| 0 <= i < j ==> t[i] == pow_chain(*base, *gen, i as nat),
        decreases step - j,
    {
        t.push(cur);
        cur = gt_pow(&cur, gen);
        j = j + 1;
    }
    t
}

/// Looks a field element up in a baby-step table by exact field equality,
/// returning the first index holding it: an answer always names an entry
/// equal to the query (a false hit is impossible), and no answer means no
/// entry is equal.
pub fn table_lookup(t: &Vec<GtElem>, x: &GtElem) -> (r: Option<u64>)
    requires
        t.len() <= u64::MAX,
    ensures
        match r {
            Some(j) => {
                &&& (j as int) < t.len()
                &&& t[j as int] == *x
                &&& forall|i: int| 0 <= i < j ==> t[i] != *x
            },
            None => forall|i: int| 0 <= i < t.len() ==> t[i] != *x,
        },
{
    let mut j: usize = 0;
    while j < t.len()
        invariant
            j <= t.len(),
            t.len() <= u64::MAX,
            forall|i: int| 0 <= i < j ==> t[i] != *x,
        decreases t.len() - j,
    {
        if gt_eq(&t[j], x) {
            return Some(j as u64);
        }
        j = j + 1;
    }
    None
}

/// A baby-step table never misreports an index: if the query is itself the
/// `n`-th chain value and the lookup answers `j`, then the `j`-th and the
/// `n`-th chain values coincide — an answer other than `n` exhibits a
/// genuine collision between two powers of the generator.
pub proof fn lemma_table_no_false_hit(
    t: Seq<GtElem>,
    base: GtElem,
    gen: Scalar,
    step: nat,
    n: nat,
    j: nat,
)
    requires
        t.len() == step,
        forall|i: int| 0 <= i < step ==> t[i] == pow_chain(base, gen, i as nat),
        j < step,
        t[j as int] == pow_chain(base, gen, n),
    ensures
        pow_chain(base, gen, j) == pow_chain(base, gen, n),
{
}

} // verus!
