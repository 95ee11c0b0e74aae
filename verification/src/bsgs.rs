use vstd::prelude::*;
use vstd::arithmetic::div_mod::{lemma_fundamental_div_mod, lemma_mod_bound};
use crate::curve::{GtElem, Scalar, gt_pow};
use crate::table::{pow_chain, build_table, table_lookup};

verus! {

/// A hit of the search: the `i`-th giant-step value (the chain from `start`
/// raised repeatedly to `inc`) equals the `j`-th baby-step table entry (the
/// chain from `tbase` raised repeatedly to `tgen`).
pub open spec fn bsgs_hit(
    tbase: GtElem,
    tgen: Scalar,
    step: nat,
    start: GtElem,
    inc: Scalar,
    i: nat,
    j: nat,
) -> bool {
    &&& j < step
    &&& pow_chain(start, inc, i) == pow_chain(tbase, tgen, j)
}

/// The first hit the search can report: a hit at giant index `i` within the
/// iteration bound, with no hit in any earlier giant iteration and none
/// earlier in the same baby-step row.
pub open spec fn bsgs_first_hit(
    tbase: GtElem,
    tgen: Scalar,
    step: nat,
    start: GtElem,
    inc: Scalar,
    iters: nat,
    i: nat,
    j: nat,
) -> bool {
    &&& i < iters
    &&& bsgs_hit(tbase, tgen, step, start, inc, i, j)
    &&& forall|i2: nat, j2: nat| i2 < i ==> !bsgs_hit(tbase, tgen, step, start, inc, i2, j2)
    &&& forall|j2: nat| j2 < j ==> !bsgs_hit(tbase, tgen, step, start, inc, i, j2)
}

/// What one baby-step/giant-step stage reports: the combined index
/// `i * step + j` of the first hit, or nothing exactly when no cell within
/// the iteration bound hits.
pub open spec fn bsgs_post(
    tbase: GtElem,
    tgen: Scalar,
    step: nat,
    start: GtElem,
    inc: Scalar,
    iters: nat,
    r: Option<u128>,
) -> bool {
    match r {
        Some(c) => exists|i: nat, j: nat|
            bsgs_first_hit(tbase, tgen, step, start, inc, iters, i, j) && c as nat == i * step
                + j,
        None => forall|i: nat, j: nat|
            i < iters ==> !bsgs_hit(tbase, tgen, step, start, inc, i, j),
    }
}

/// One parameterized baby-step/giant-step stage: builds the table of `step`
/// baby steps of `tgen` over `tbase`, then walks up to `iters` giant steps
/// of `inc` from `start`, reporting the combined index of the first table
/// hit, or nothing when the search is exhausted.
pub fn bsgs_search(
    tbase: &GtElem,
    tgen: &Scalar,
    step: u64,
    start: &GtElem,
    inc: &Scalar,
    iters: u128,
) -> (r: Option<u128>)
    requires
        1 <= step,
        (iters as int) * (step as int) + (step as int) <= u128::MAX,
    ensures
        bsgs_post(*tbase, *tgen, step as nat, *start, *inc, iters as nat, r),
        r matches Some(c) ==> (c as int) < (iters as int) * (step as int),
{
    let table = build_table(tbase, tgen, step);
    let mut giant: GtElem = *start;
    let mut i: u128 = 0;
    while i < iters
        invariant
            i <= iters,
            1 <= step,
            (iters as int) * (step as int) + (step as int) <= u128::MAX,
            table.len() == step,
            forall|j: int| 0 <= j < step ==> table[j] == pow_chain(*tbase, *tgen, j as nat),
            giant == pow_chain(*start, *inc, i as nat),
            forall|i2: nat, j2: nat|
                i2 < i ==> !bsgs_hit(*tbase, *tgen, step as nat, *start, *inc, i2, j2),
        decreases iters - i,
    {
        match table_lookup(&table, &giant) {
            Some(j) => {
                proof {
                    assert(bsgs_hit(*tbase, *tgen, step as nat, *start, *inc, i as nat, j as nat));
                    assert forall|j2: nat|
                        j2 < j implies !bsgs_hit(
                        *tbase,
                        *tgen,
                        step as nat,
                        *start,
                        *inc,
                        i as nat,
                        j2,
                    ) by {
                        assert(table[j2 as int] == pow_chain(*tbase, *tgen, j2));
                        assert(table[j2 as int] != giant);
                    }
                    assert(bsgs_first_hit(
                        *tbase,
                        *tgen,
                        step as nat,
                        *start,
                        *inc,
                        iters as nat,
                        i as nat,
                        j as nat,
                    ));
                    assert((i as int) * (step as int) + (j as int) < (iters as int) * (step as int))
                        by (nonlinear_arith)
                        requires
                            (i as int) < (iters as int),
                            (j as int) < (step as int),
                            0 <= (i as int),
                            0 <= (j as int),
                            1 <= (step as int),
                    ;
                }
                return Some(i * (step as u128) + (j as u128));
            },
            None => {
                proof {
                    assert forall|j2: nat| !bsgs_hit(
                        *tbase,
                        *tgen,
                        step as nat,
                        *start,
                        *inc,
                        i as nat,
                        j2,
                    ) by {
                        if j2 < step as nat {
                            assert(table[j2 as int] == pow_chain(*tbase, *tgen, j2));
                            assert(table[j2 as int] != giant);
                        }
                    }
                }
            },
        }
        giant = gt_pow(&giant, inc);
        i = i + 1;
    }
    None
}

/// A stage's report is a function of its parameters: two reports that both
/// satisfy the stage postcondition coincide. Repeated invocations with
/// identical inputs therefore yield identical output.
pub proof fn lemma_bsgs_post_unique(
    tbase: GtElem,
    tgen: Scalar,
    step: nat,
    start: GtElem,
    inc: Scalar,
    iters: nat,
    r1: Option<u128>,
    r2: Option<u128>,
)
    requires
        bsgs_post(tbase, tgen, step, start, inc, iters, r1),
        bsgs_post(tbase, tgen, step, start, inc, iters, r2),
    ensures
        r1 == r2,
{
    match (r1, r2) {
        (Some(c1), Some(c2)) => {
            let (i1, j1) = choose|i: nat, j: nat|
                bsgs_first_hit(tbase, tgen, step, start, inc, iters, i, j) && c1 as nat == i
                    * step + j;
            let (i2, j2) = choose|i: nat, j: nat|
                bsgs_first_hit(tbase, tgen, step, start, inc, iters, i, j) && c2 as nat == i
                    * step + j;
            assert(bsgs_hit(tbase, tgen, step, start, inc, i1, j1));
            assert(bsgs_hit(tbase, tgen, step, start, inc, i2, j2));
            assert(i1 == i2);
            assert(j1 == j2);
        },
        (Some(c1), None) => {
            let (i1, j1) = choose|i: nat, j: nat|
                bsgs_first_hit(tbase, tgen, step, start, inc, iters, i, j) && c1 as nat == i
                    * step + j;
            assert(bsgs_hit(tbase, tgen, step, start, inc, i1, j1));
        },
        (None, Some(c2)) => {
            let (i2, j2) = choose|i: nat, j: nat|
                bsgs_first_hit(tbase, tgen, step, start, inc, iters, i, j) && c2 as nat == i
                    * step + j;
            assert(bsgs_hit(tbase, tgen, step, start, inc, i2, j2));
        },
        (None, None) => {},
    }
}

/// The search cannot miss: a hit anywhere within the searched range forces a
/// report, and the reported combined index is at most that of the given hit.
pub proof fn lemma_bsgs_complete(
    tbase: GtElem,
    tgen: Scalar,
    step: nat,
    start: GtElem,
    inc: Scalar,
    iters: nat,
    i: nat,
    j: nat,
    r: Option<u128>,
)
    requires
        i < iters,
        bsgs_hit(tbase, tgen, step, start, inc, i, j),
        bsgs_post(tbase, tgen, step, start, inc, iters, r),
    ensures
        r is Some,
        r matches Some(c) ==> c as nat <= i * step + j,
{
    match r {
        Some(c) => {
            let (i0, j0) = choose|i0: nat, j0: nat|
                bsgs_first_hit(tbase, tgen, step, start, inc, iters, i0, j0) && c as nat == i0
                    * step + j0;
            assert(bsgs_hit(tbase, tgen, step, start, inc, i0, j0));
            assert(i0 <= i);
            if i0 == i {
                assert(j0 <= j);
            } else {
                assert(i0 * step + j0 < i * step + j) by (nonlinear_arith)
                    requires
                        i0 < i,
                        j0 < step,
                        0 <= j,
                ;
            }
        },
        None => {
            assert(!bsgs_hit(tbase, tgen, step, start, inc, i, j));
        },
    }
}

/// When the hit at combined index `c` is the earliest one in the searched
/// range, the search reports exactly `c`: the interval arithmetic of the
/// stage is exact, with no off-by-one at either edge.
pub proof fn lemma_bsgs_exact(
    tbase: GtElem,
    tgen: Scalar,
    step: nat,
    start: GtElem,
    inc: Scalar,
    iters: nat,
    c: nat,
    r: Option<u128>,
)
    requires
        1 <= step,
        c < iters * step,
        bsgs_hit(tbase, tgen, step, start, inc, c / step, c % step),
        forall|i: nat, j: nat|
            j < step && i * step + j < c ==> !bsgs_hit(tbase, tgen, step, start, inc, i, j),
        bsgs_post(tbase, tgen, step, start, inc, iters, r),
        c <= u128::MAX,
    ensures
        r == Some(c as u128),
{
    lemma_fundamental_div_mod(c as int, step as int);
    lemma_mod_bound(c as int, step as int);
    assert(c % step < step);
    assert((c / step) * step + c % step == c);
    assert(c / step < iters) by (nonlinear_arith)
        requires
            c < iters * step,
            1 <= step,
            (c / step) * step + c % step == c,
            0 <= c % step,
            0 <= c / step,
    ;
    lemma_bsgs_complete(tbase, tgen, step, start, inc, iters, c / step, c % step, r);
    let c2 = r->Some_0;
    assert(c2 as nat <= (c / step) * step + c % step);
    let (i0, j0) = choose|i0: nat, j0: nat|
        bsgs_first_hit(tbase, tgen, step, start, inc, iters, i0, j0) && c2 as nat == i0 * step
            + j0;
    assert(bsgs_hit(tbase, tgen, step, start, inc, i0, j0));
    assert(c2 as nat >= c);
}

} // verus!
